//! The list of conversations: one watcher per conversation, keyed by the
//! conversation's identifier, together with the conversation that is on
//! screen.
//!
//! The list is what hands each watcher its `active` flag, so it is here that
//! the rule "one event subscription per conversation" can be seen whole: the
//! message view subscribes to the conversation on screen, a watcher only to a
//! conversation that is not, and no conversation has two watchers.

use crate::conversation::ConversationInfo;
use crate::ident::same_id;
use crate::watcher::{
    initial, lemma_rekey_keeps_wf, lemma_step_keeps_wf, rekey_model, step_fits, step_model, Event,
    Outcome, WatchKey, Watcher, WatcherState,
};
use uuid::Uuid;
use vstd::prelude::*;

verus! {

/// The list as the contracts see it.
pub struct SidebarState {
    /// The watcher of each listed conversation, by conversation identifier.
    pub rows: Map<Uuid, WatcherState>,
    /// The conversation on screen, if any.
    pub current_chat: Option<Uuid>,
}

impl SidebarState {
    /// Whether `conversation` is the one on screen.
    pub open spec fn on_screen(self, conversation: Uuid) -> bool {
        self.current_chat == Some(conversation)
    }

    /// Whether the watcher of `conversation` has an event stream open.
    pub open spec fn watched_live(self, conversation: Uuid) -> bool {
        self.rows.contains_key(conversation) && self.rows[conversation].holds_stream()
    }

    /// Number of event subscriptions that are open for `conversation`: that
    /// of the message view, which subscribes to the conversation on screen,
    /// and that of the conversation's watcher.
    pub open spec fn subscriptions(self, conversation: Uuid) -> nat {
        let view: nat = if self.on_screen(conversation) {
            1
        } else {
            0
        };
        let watcher: nat = if self.watched_live(conversation) {
            1
        } else {
            0
        };
        view + watcher
    }

    /// What holds of every list: each watcher is filed under the conversation
    /// it watches, is in a state that a watcher can reach, and is active
    /// exactly if its conversation is the one on screen.
    pub open spec fn wf(self) -> bool {
        &&& self.rows.dom().finite()
        &&& forall|id: Uuid| #[trigger]
            self.rows.contains_key(id) ==> {
                &&& self.rows[id].info.conversation == id
                &&& self.rows[id].wf()
                &&& self.rows[id].key.active == self.on_screen(id)
            }
    }
}

/// The list after `event` was handed to the watcher of `conversation`, and
/// that watcher's answer. Without such a watcher nothing changes and there is
/// no answer.
pub open spec fn delivered(s: SidebarState, conversation: Uuid, event: Event) -> (
    SidebarState,
    Option<Outcome>,
) {
    if s.rows.contains_key(conversation) {
        let (row, out) = step_model(s.rows[conversation], event);
        (SidebarState { rows: s.rows.insert(conversation, row), ..s }, Some(out))
    } else {
        (s, None)
    }
}

/// The key of `row` once `chat` is the conversation on screen.
pub open spec fn key_under(row: WatcherState, chat: Option<Uuid>) -> WatchKey {
    WatchKey { active: chat == Some(row.info.conversation), counter: row.key.counter }
}

/// Whether putting `chat` on screen changes the key of the watcher of
/// `conversation`.
pub open spec fn switches(s: SidebarState, chat: Option<Uuid>, conversation: Uuid) -> bool {
    s.rows.contains_key(conversation) && s.rows[conversation].key.active != (chat == Some(
        conversation,
    ))
}

/// The list after `chat` was put on screen: every watcher is told its key
/// anew, which restarts those whose conversation came on or went off screen.
pub open spec fn selected(s: SidebarState, chat: Option<Uuid>) -> SidebarState {
    SidebarState {
        rows: Map::new(
            |id: Uuid| s.rows.contains_key(id),
            |id: Uuid| rekey_model(s.rows[id], key_under(s.rows[id], chat)).0,
        ),
        current_chat: chat,
    }
}

/// The watcher that a conversation gets when it is first listed: not
/// started, nothing read, nothing unread.
pub open spec fn fresh_row(conversation: Uuid, current_chat: Option<Uuid>) -> WatcherState {
    initial(
        ConversationInfo { conversation, last_msg_read: None },
        WatchKey { active: current_chat == Some(conversation), counter: 0 },
    )
}

/// The watcher of `conversation` after the list was brought in line with the
/// backend: the one it had, or a fresh one.
pub open spec fn row_for(s: SidebarState, conversation: Uuid) -> WatcherState {
    if s.rows.contains_key(conversation) {
        s.rows[conversation]
    } else {
        fresh_row(conversation, s.current_chat)
    }
}

/// The distinct identifiers of `listed`, each at the place of its first
/// occurrence.
pub open spec fn first_occurrences(listed: Seq<Uuid>) -> Seq<Uuid>
    decreases listed.len(),
{
    if listed.len() == 0 {
        Seq::empty()
    } else {
        let front = first_occurrences(listed.drop_last());
        if front.contains(listed.last()) {
            front
        } else {
            front.push(listed.last())
        }
    }
}

/// The list brought in line with the conversations that the backend lists:
/// those and no others have a watcher, and a conversation that was listed
/// before keeps its watcher as it is.
pub open spec fn synced(s: SidebarState, listed: Set<Uuid>) -> SidebarState {
    SidebarState {
        rows: Map::new(|id: Uuid| listed.contains(id), |id: Uuid| row_for(s, id)),
        current_chat: s.current_chat,
    }
}

/// No conversation ever has two event subscriptions open at once.
pub proof fn lemma_one_subscription_per_conversation(s: SidebarState, conversation: Uuid)
    requires
        s.wf(),
    ensures
        s.subscriptions(conversation) <= 1,
        s.watched_live(conversation) ==> !s.on_screen(conversation),
{
}

/// The empty list is one that `wf` admits, and each of the three changes of a
/// list leads from one such list to another: handing an event to a watcher,
/// putting a conversation on screen, bringing the list in line with the
/// backend. So `lemma_one_subscription_per_conversation` holds of every list
/// that can come about.
pub proof fn lemma_changes_keep_wf(
    s: SidebarState,
    conversation: Uuid,
    event: Event,
    chat: Option<Uuid>,
    listed: Set<Uuid>,
)
    requires
        s.wf(),
        listed.finite(),
    ensures
        (SidebarState { rows: Map::empty(), current_chat: None }).wf(),
        delivered(s, conversation, event).0.wf(),
        selected(s, chat).wf(),
        synced(s, listed).wf(),
{
    if s.rows.contains_key(conversation) {
        lemma_step_keeps_wf(s.rows[conversation], event);
    }
    let p = selected(s, chat);
    assert(p.rows.dom() =~= s.rows.dom());
    assert forall|id: Uuid| #[trigger] p.rows.contains_key(id) implies {
        &&& p.rows[id].info.conversation == id
        &&& p.rows[id].wf()
        &&& p.rows[id].key.active == p.on_screen(id)
    } by {
        lemma_rekey_keeps_wf(s.rows[id], key_under(s.rows[id], chat));
    }
    let y = synced(s, listed);
    assert(y.rows.dom() =~= listed);
}

spec fn ids_of(rows: Seq<Watcher>) -> Seq<Uuid> {
    Seq::new(rows.len(), |i: int| rows[i]@.info.conversation)
}

spec fn table(rows: Seq<Watcher>) -> Map<Uuid, WatcherState> {
    Map::new(
        |id: Uuid| ids_of(rows).contains(id),
        |id: Uuid| rows[ids_of(rows).index_of(id)]@,
    )
}

proof fn lemma_table_row(rows: Seq<Watcher>, i: int)
    requires
        ids_of(rows).no_duplicates(),
        0 <= i < rows.len(),
    ensures
        table(rows).contains_key(rows[i]@.info.conversation),
        table(rows)[rows[i]@.info.conversation] == rows[i]@,
{
    // `index_of` picks a position of the identifier; without duplicates there
    // is only the one.
    let ids = ids_of(rows);
    assert(ids[ids.index_of(ids[i])] == ids[i]);
}

proof fn lemma_table_key(rows: Seq<Watcher>, id: Uuid)
    requires
        ids_of(rows).no_duplicates(),
        table(rows).contains_key(id),
    ensures
        0 <= ids_of(rows).index_of(id) < rows.len(),
        rows[ids_of(rows).index_of(id)]@.info.conversation == id,
        table(rows)[id] == rows[ids_of(rows).index_of(id)]@,
{
}

proof fn lemma_table_update(rows: Seq<Watcher>, i: int, row: Watcher)
    requires
        ids_of(rows).no_duplicates(),
        0 <= i < rows.len(),
        row@.info.conversation == rows[i]@.info.conversation,
    ensures
        ids_of(rows.update(i, row)) == ids_of(rows),
        table(rows.update(i, row)) == table(rows).insert(row@.info.conversation, row@),
{
    let after = rows.update(i, row);
    assert(ids_of(after) =~= ids_of(rows));
    let id = row@.info.conversation;
    assert forall|other: Uuid| #[trigger] table(after).contains_key(other) implies table(after)[other]
        == table(rows).insert(id, row@)[other] by {
        lemma_table_key(after, other);
        lemma_table_key(rows, other);
        lemma_table_row(rows, i);
        lemma_table_row(after, i);
    }
    lemma_table_row(rows, i);
}

proof fn lemma_table_push(rows: Seq<Watcher>, row: Watcher)
    requires
        ids_of(rows).no_duplicates(),
        !ids_of(rows).contains(row@.info.conversation),
    ensures
        ids_of(rows.push(row)) == ids_of(rows).push(row@.info.conversation),
        ids_of(rows.push(row)).no_duplicates(),
        table(rows.push(row)) == table(rows).insert(row@.info.conversation, row@),
{
    let after = rows.push(row);
    let id = row@.info.conversation;
    assert(ids_of(after) =~= ids_of(rows).push(id));
    assert forall|other: Uuid| table(after).contains_key(other) <==> table(rows).insert(
        id,
        row@,
    ).contains_key(other) by {
        if ids_of(rows).contains(other) {
            let k = choose|k: int| 0 <= k < ids_of(rows).len() && ids_of(rows)[k] == other;
            assert(ids_of(after)[k] == other);
        }
        if other == id {
            assert(ids_of(after)[rows.len() as int] == id);
        }
    }
    assert forall|other: Uuid| #[trigger] table(after).contains_key(other) implies table(after)[other]
        == table(rows).insert(id, row@)[other] by {
        lemma_table_key(after, other);
        if other == id {
            lemma_table_row(after, rows.len() as int);
        } else {
            lemma_table_key(rows, other);
            lemma_table_row(after, ids_of(rows).index_of(other));
        }
    }
}

/// Position of the watcher of `conversation` among `rows`.
fn find_row(rows: &Vec<Watcher>, conversation: &Uuid) -> (found: Option<usize>)
    ensures
        match found {
            Some(i) => i < rows.len() && rows[i as int]@.info.conversation == *conversation,
            None => !ids_of(rows@).contains(*conversation),
        },
{
    let mut i: usize = 0;
    while i < rows.len()
        invariant
            i <= rows.len(),
            forall|j: int| 0 <= j < i ==> rows[j]@.info.conversation != *conversation,
        decreases rows.len() - i,
    {
        if rows[i].info().is_for(conversation) {
            return Some(i);
        }
        i = i + 1;
    }
    None
}

/// Whether `chat` names `conversation`.
fn names(chat: Option<Uuid>, conversation: &Uuid) -> (yes: bool)
    ensures
        yes == (chat == Some(*conversation)),
{
    match chat {
        Some(current) => same_id(&current, conversation),
        None => false,
    }
}

/// How a row of the list is drawn.
#[derive(Clone, Copy, Debug, PartialEq, Eq, Structural)]
pub enum Highlight {
    /// The row of the conversation on screen.
    Active,
    /// A row of another conversation while one is on screen.
    Inactive,
    /// No conversation is on screen.
    Unset,
}

impl Highlight {
    /// The style class of a row that is drawn this way.
    pub fn class_name(self) -> (name: &'static str)
        ensures
            name@ == match self {
                Highlight::Active => "active"@,
                Highlight::Inactive => "none"@,
                Highlight::Unset => ""@,
            },
    {
        match self {
            Highlight::Active => "active",
            Highlight::Inactive => "none",
            Highlight::Unset => "",
        }
    }
}

/// How the row of `conversation` is drawn while `current_chat` is on screen.
pub open spec fn highlight_of(current_chat: Option<Uuid>, conversation: Uuid) -> Highlight {
    match current_chat {
        Some(current) => if current == conversation {
            Highlight::Active
        } else {
            Highlight::Inactive
        },
        None => Highlight::Unset,
    }
}

/// The conversation list.
#[derive(Debug)]
pub struct Sidebar {
    rows: Vec<Watcher>,
    current_chat: Option<Uuid>,
}

impl View for Sidebar {
    type V = SidebarState;

    closed spec fn view(&self) -> SidebarState {
        SidebarState { rows: table(self.rows@), current_chat: self.current_chat }
    }
}

impl Sidebar {
    #[verifier::type_invariant]
    spec fn consistent(self) -> bool {
        &&& ids_of(self.rows@).no_duplicates()
        &&& forall|i: int|
            0 <= i < self.rows.len() ==> {
                &&& (#[trigger] self.rows[i])@.wf()
                &&& self.rows[i]@.key.active == (self.current_chat == Some(
                    self.rows[i]@.info.conversation,
                ))
            }
    }

    /// The conversations in the order of their rows.
    pub closed spec fn order(&self) -> Seq<Uuid> {
        ids_of(self.rows@)
    }

    /// What every list is like, whatever it went through: it is one that
    /// `SidebarState::wf` admits, no two of its rows are for the same
    /// conversation, and its rows are for exactly the listed conversations.
    pub open spec fn sound(&self) -> bool {
        &&& self@.wf()
        &&& self.order().no_duplicates()
        &&& self.order().to_set() == self@.rows.dom()
        &&& self.order().len() == self@.rows.dom().len()
    }

    proof fn lemma_sound(&self)
        requires
            self.consistent(),
        ensures
            self.sound(),
    {
        let rows = self.rows@;
        vstd::seq_lib::seq_to_set_is_finite(ids_of(rows));
        ids_of(rows).unique_seq_to_set();
        assert forall|id: Uuid| #[trigger] self@.rows.contains_key(id) implies {
            &&& self@.rows[id].info.conversation == id
            &&& self@.rows[id].wf()
            &&& self@.rows[id].key.active == self@.on_screen(id)
        } by {
            lemma_table_key(rows, id);
        }
    }

    /// An empty list with no conversation on screen.
    pub fn new() -> (sidebar: Sidebar)
        ensures
            sidebar@.rows == Map::<Uuid, WatcherState>::empty(),
            sidebar@.current_chat is None,
            sidebar.order() == Seq::<Uuid>::empty(),
            sidebar.sound(),
    {
        let sidebar = Sidebar { rows: Vec::new(), current_chat: None };
        proof {
            use_type_invariant(&sidebar);
            sidebar.lemma_sound();
        }
        sidebar
    }

    /// Number of listed conversations.
    pub fn len(&self) -> (n: usize)
        ensures
            n == self@.rows.dom().len(),
            n == self.order().len(),
            self.sound(),
    {
        proof {
            use_type_invariant(self);
            self.lemma_sound();
        }
        self.rows.len()
    }

    /// The conversation on screen, if any.
    pub fn current_chat(&self) -> (chat: Option<Uuid>)
        ensures
            chat == self@.current_chat,
    {
        self.current_chat
    }

    /// Whether `conversation` is the one on screen.
    pub fn is_active(&self, conversation: &Uuid) -> (yes: bool)
        ensures
            yes == self@.on_screen(*conversation),
    {
        names(self.current_chat, conversation)
    }

    /// How the row of `conversation` is drawn.
    pub fn highlight(&self, conversation: &Uuid) -> (mark: Highlight)
        ensures
            mark == highlight_of(self@.current_chat, *conversation),
            (mark == Highlight::Active) == self@.on_screen(*conversation),
    {
        match self.current_chat {
            Some(current) => if same_id(&current, conversation) {
                Highlight::Active
            } else {
                Highlight::Inactive
            },
            None => Highlight::Unset,
        }
    }

    /// The listed conversations, in the order of their rows, each once.
    pub fn conversations(&self) -> (ids: Vec<Uuid>)
        ensures
            ids@ == self.order(),
            self.sound(),
    {
        proof {
            use_type_invariant(self);
            self.lemma_sound();
        }
        let mut ids: Vec<Uuid> = Vec::new();
        let mut i: usize = 0;
        while i < self.rows.len()
            invariant
                i <= self.rows.len(),
                ids@ == ids_of(self.rows@).take(i as int),
            decreases self.rows.len() - i,
        {
            ids.push(self.rows[i].info().conversation);
            assert(ids_of(self.rows@).take(i + 1) == ids_of(self.rows@).take(i as int).push(
                ids_of(self.rows@)[i as int],
            ));
            i = i + 1;
        }
        ids
    }

    /// A copy of the watcher of `conversation`, to read its state from, if the
    /// conversation is listed. Events reach the watcher itself through
    /// `deliver`.
    pub fn watcher(&self, conversation: &Uuid) -> (row: Option<Watcher>)
        ensures
            match row {
                Some(watcher) => self@.rows.contains_key(*conversation) && watcher@
                    == self@.rows[*conversation],
                None => !self@.rows.contains_key(*conversation),
            },
            self.sound(),
    {
        proof {
            use_type_invariant(self);
            self.lemma_sound();
        }
        match find_row(&self.rows, conversation) {
            Some(i) => {
                proof {
                    lemma_table_row(self.rows@, i as int);
                }
                Some(self.rows[i])
            },
            None => None,
        }
    }

    /// Whether `event` can be delivered to the watcher of `conversation`:
    /// always, unless it would count that watcher's unread counter past what
    /// it can hold.
    pub fn accepts(&self, conversation: &Uuid, event: &Event) -> (yes: bool)
        ensures
            yes == (self@.rows.contains_key(*conversation) ==> step_fits(
                self@.rows[*conversation],
                *event,
            )),
    {
        proof {
            use_type_invariant(self);
        }
        match find_row(&self.rows, conversation) {
            Some(i) => {
                proof {
                    lemma_table_row(self.rows@, i as int);
                }
                self.rows[i].accepts(event)
            },
            None => true,
        }
    }

    /// Hands `event` to the watcher of `conversation` and returns its answer,
    /// or `None` if the conversation is not listed.
    pub fn deliver(&mut self, conversation: &Uuid, event: Event) -> (out: Option<Outcome>)
        requires
            old(self)@.rows.contains_key(*conversation) ==> step_fits(
                old(self)@.rows[*conversation],
                event,
            ),
        ensures
            final(self)@ == delivered(old(self)@, *conversation, event).0,
            out == delivered(old(self)@, *conversation, event).1,
            final(self).order() == old(self).order(),
            final(self).sound(),
    {
        proof {
            use_type_invariant(&*self);
        }
        match find_row(&self.rows, conversation) {
            Some(i) => {
                proof {
                    lemma_table_row(self.rows@, i as int);
                }
                let mut row = self.rows[i];
                let out = row.step(event);
                proof {
                    lemma_step_keeps_wf(old(self).rows[i as int]@, event);
                    lemma_table_update(self.rows@, i as int, row);
                }
                // The rows are taken out, changed and put back, so that the
                // list is replaced as a whole.
                let mut taken = Sidebar { rows: Vec::new(), current_chat: None };
                core::mem::swap(self, &mut taken);
                let Sidebar { rows, current_chat } = taken;
                let mut rows = rows;
                rows.set(i, row);
                *self = Sidebar { rows, current_chat };
                proof {
                    use_type_invariant(&*self);
                    self.lemma_sound();
                }
                Some(out)
            },
            None => {
                proof {
                    self.lemma_sound();
                }
                None
            },
        }
    }

    /// Puts `chat` on screen, or nothing if `chat` is `None`.
    ///
    /// Every watcher is told its key anew. The watchers whose conversation
    /// came on or went off screen start over; the result names each of them
    /// once, in the order of the rows, with the answer of its restart.
    pub fn select(&mut self, chat: Option<Uuid>) -> (restarts: Vec<(Uuid, Outcome)>)
        ensures
            final(self)@ == selected(old(self)@, chat),
            forall|k: int|
                0 <= k < restarts.len() ==> {
                    let id = (#[trigger] restarts[k]).0;
                    &&& switches(old(self)@, chat, id)
                    &&& restarts[k].1 == rekey_model(
                        old(self)@.rows[id],
                        key_under(old(self)@.rows[id], chat),
                    ).1
                },
            forall|id: Uuid|
                switches(old(self)@, chat, id) ==> exists|k: int|
                    0 <= k < restarts.len() && (#[trigger] restarts[k]).0 == id,
            forall|j: int, k: int|
                0 <= j < k < restarts.len() ==> (#[trigger] restarts[j]).0 != (
                #[trigger] restarts[k]).0,
            forall|j: int, k: int|
                0 <= j < k < restarts.len() ==> old(self).order().index_of(
                    (#[trigger] restarts[j]).0,
                ) < old(self).order().index_of((#[trigger] restarts[k]).0),
            final(self).order() == old(self).order(),
            final(self).sound(),
    {
        proof {
            use_type_invariant(&*self);
        }
        let mut rows: Vec<Watcher> = Vec::new();
        let mut restarts: Vec<(Uuid, Outcome)> = Vec::new();
        let ghost before = self.rows@;
        let ghost mut at: Seq<int> = Seq::empty();
        let mut i: usize = 0;
        while i < self.rows.len()
            invariant
                i <= self.rows.len(),
                *self == *old(self),
                before == self.rows@,
                self.consistent(),
                rows.len() == i,
                forall|j: int|
                    0 <= j < i ==> (#[trigger] rows[j])@ == rekey_model(
                        before[j]@,
                        key_under(before[j]@, chat),
                    ).0,
                at.len() == restarts.len(),
                forall|k: int|
                    0 <= k < at.len() ==> {
                        &&& 0 <= #[trigger] at[k] < i
                        &&& restarts[k].0 == before[at[k]]@.info.conversation
                        &&& before[at[k]]@.key.active != (chat == Some(restarts[k].0))
                        &&& restarts[k].1 == rekey_model(
                            before[at[k]]@,
                            key_under(before[at[k]]@, chat),
                        ).1
                    },
                forall|j: int, k: int| 0 <= j < k < at.len() ==> at[j] < at[k],
                forall|j: int|
                    0 <= j < i && before[j]@.key.active != (chat == Some(
                        before[j]@.info.conversation,
                    )) ==> exists|k: int| 0 <= k < at.len() && #[trigger] at[k] == j,
            decreases self.rows.len() - i,
        {
            let mut row = self.rows[i];
            let id = row.info().conversation;
            let key = WatchKey { active: names(chat, &id), counter: row.key().counter };
            let switched = key.active != row.key().active;
            let out = row.rekey(key);
            rows.push(row);
            if switched {
                restarts.push((id, out));
                proof {
                    let ghost earlier = at;
                    at = at.push(i as int);
                    assert forall|j: int|
                        0 <= j < i + 1 && before[j]@.key.active != (chat == Some(
                            before[j]@.info.conversation,
                        )) implies exists|k: int| 0 <= k < at.len() && #[trigger] at[k] == j by {
                        if j < i {
                            let k = choose|k: int| 0 <= k < earlier.len() && #[trigger] earlier[k] == j;
                            assert(at[k] == j);
                        } else {
                            assert(at[earlier.len() as int] == j);
                        }
                    }
                }
            }
            i = i + 1;
        }
        proof {
            let after = rows@;
            assert(ids_of(after) =~= ids_of(before));
            assert forall|j: int| 0 <= j < after.len() implies {
                &&& (#[trigger] after[j])@.wf()
                &&& after[j]@.key.active == (chat == Some(after[j]@.info.conversation))
            } by {
                lemma_rekey_keeps_wf(before[j]@, key_under(before[j]@, chat));
            }
            assert forall|id: Uuid| #[trigger] table(before).contains_key(id) implies table(
                after,
            )[id] == rekey_model(table(before)[id], key_under(table(before)[id], chat)).0 by {
                lemma_table_key(before, id);
                lemma_table_key(after, id);
            }
            assert(table(after) =~= selected(old(self)@, chat).rows);
            assert forall|k: int| 0 <= k < restarts.len() implies {
                let id = (#[trigger] restarts[k]).0;
                &&& switches(old(self)@, chat, id)
                &&& restarts[k].1 == rekey_model(
                    old(self)@.rows[id],
                    key_under(old(self)@.rows[id], chat),
                ).1
            } by {
                lemma_table_row(before, at[k]);
            }
            assert forall|id: Uuid| switches(old(self)@, chat, id) implies exists|k: int|
                0 <= k < restarts.len() && (#[trigger] restarts[k]).0 == id by {
                lemma_table_key(before, id);
                let j = ids_of(before).index_of(id);
                let k = choose|k: int| 0 <= k < at.len() && #[trigger] at[k] == j;
                assert(restarts[k].0 == id);
            }
            assert forall|k: int| 0 <= k < restarts.len() implies ids_of(before).index_of(
                (#[trigger] restarts[k]).0,
            ) == at[k] by {
                assert(ids_of(before)[at[k]] == restarts[k].0);
                lemma_table_row(before, at[k]);
                lemma_table_key(before, restarts[k].0);
            }
        }
        *self = Sidebar { rows, current_chat: chat };
        proof {
            use_type_invariant(&*self);
            self.lemma_sound();
        }
        restarts
    }

    /// Brings the list in line with the conversations that the backend
    /// lists. A conversation listed before keeps its watcher, a new one gets
    /// a fresh watcher, and the watcher of a conversation that is gone is
    /// dropped. Returns whether the set of conversations changed. If it did,
    /// the rows follow the order of `listed`; if not, they stay as they are.
    pub fn sync(&mut self, listed: &Vec<Uuid>) -> (changed: bool)
        ensures
            final(self)@ == synced(old(self)@, listed@.to_set()),
            changed == (old(self)@.rows.dom() != listed@.to_set()),
            final(self).order() == if changed {
                first_occurrences(listed@)
            } else {
                old(self).order()
            },
            final(self).sound(),
    {
        proof {
            use_type_invariant(&*self);
        }
        let mut rows: Vec<Watcher> = Vec::new();
        let mut added = false;
        let mut k: usize = 0;
        while k < listed.len()
            invariant
                k <= listed.len(),
                *self == *old(self),
                self.consistent(),
                self@.rows.dom() == ids_of(self.rows@).to_set(),
                ids_of(rows@).no_duplicates(),
                ids_of(rows@) == first_occurrences(listed@.take(k as int)),
                ids_of(rows@).to_set() == listed@.take(k as int).to_set(),
                forall|j: int|
                    0 <= j < rows.len() ==> (#[trigger] rows[j])@ == row_for(
                        self@,
                        rows[j]@.info.conversation,
                    ),
                added <==> !listed@.take(k as int).to_set().subset_of(self@.rows.dom()),
            decreases listed.len() - k,
        {
            let id = listed[k];
            let ghost seen = listed@.take(k as int);
            proof {
                assert(listed@.take(k + 1) == seen.push(id));
                assert(listed@.take(k + 1).drop_last() == seen);
                seen.lemma_push_to_set_commute(id);
            }
            match find_row(&rows, &id) {
                Some(i) => {
                    assert(ids_of(rows@)[i as int] == id);
                },
                None => {
                    let row = match find_row(&self.rows, &id) {
                        Some(i) => {
                            proof {
                                lemma_table_row(self.rows@, i as int);
                            }
                            self.rows[i]
                        },
                        None => {
                            added = true;
                            Watcher::new(
                                ConversationInfo::new(id),
                                WatchKey { active: names(self.current_chat, &id), counter: 0 },
                            )
                        },
                    };
                    proof {
                        lemma_table_push(rows@, row);
                        ids_of(rows@).lemma_push_to_set_commute(id);
                        assert(seen.to_set().insert(id).contains(id));
                    }
                    rows.push(row);
                },
            }
            k = k + 1;
        }
        assert(listed@.take(listed.len() as int) == listed@);
        let mut removed = false;
        let mut j: usize = 0;
        while j < self.rows.len()
            invariant
                j <= self.rows.len(),
                *self == *old(self),
                removed <==> !ids_of(self.rows@).take(j as int).to_set().subset_of(
                    ids_of(rows@).to_set(),
                ),
            decreases self.rows.len() - j,
        {
            let id = self.rows[j].info().conversation;
            let ghost seen = ids_of(self.rows@).take(j as int);
            proof {
                assert(ids_of(self.rows@).take(j + 1) == seen.push(id));
                seen.lemma_push_to_set_commute(id);
                assert(seen.to_set().insert(id).contains(id));
            }
            match find_row(&rows, &id) {
                Some(i) => {
                    assert(ids_of(rows@)[i as int] == id);
                },
                None => {
                    removed = true;
                },
            }
            j = j + 1;
        }
        assert(ids_of(self.rows@).take(self.rows.len() as int) == ids_of(self.rows@));
        let changed = added || removed;
        proof {
            let was = old(self)@;
            let want = listed@.to_set();
            if changed {
                assert forall|id: Uuid| #[trigger] table(rows@).contains_key(id) implies table(
                    rows@,
                )[id] == row_for(was, id) by {
                    lemma_table_key(rows@, id);
                }
                assert(table(rows@) =~= synced(was, want).rows);
                assert forall|i: int| 0 <= i < rows.len() implies {
                    &&& (#[trigger] rows[i])@.wf()
                    &&& rows[i]@.key.active == (self.current_chat == Some(
                        rows[i]@.info.conversation,
                    ))
                } by {
                    let id = rows[i]@.info.conversation;
                    if was.rows.contains_key(id) {
                        lemma_table_key(self.rows@, id);
                    }
                }
            } else {
                assert(was.rows.dom() =~= want);
                assert(was.rows =~= synced(was, want).rows);
            }
        }
        if changed {
            self.rows = rows;
        }
        proof {
            use_type_invariant(&*self);
            self.lemma_sound();
        }
        changed
    }
}

} // verus!
