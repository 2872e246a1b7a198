//! The interaction session: one request's lifecycle. It owns the selected
//! option set, the free-text buffer, the message-identity anchors and the
//! poll cursor, consumes classified events, and decides when the session is
//! complete. The poll loop itself (transport calls, delays, cancellation)
//! lives outside; this state machine is its single source of decisions.

use vstd::prelude::*;
use crate::classify::{
    classify_model, classify_update, DomainEvent, EventModel, Update, UpdateKind, UpdateKindModel,
};
use crate::registry::{ChannelEndpoint, EndpointModel};
use crate::strutil::str_eq;

verus! {

/// Where a session stands in its lifecycle.
#[derive(Clone, Copy, Debug, PartialEq, Eq, Structural)]
pub enum SessionPhase {
    /// The interactive message has not been delivered yet.
    Posting,
    /// Updates are being polled and reconciled.
    Polling,
    /// A commit event ended the session.
    Completed,
}

/// What the host must do after one update has been processed.
#[derive(Clone, Copy, Debug, PartialEq, Eq, Structural)]
pub enum StepAction {
    /// Nothing beyond advancing to the next update.
    Idle,
    /// Push refreshed toggle markup to the interactive message.
    RefreshMarkup { message_id: i64 },
    /// The session is complete; emit its result. `continued` tells the
    /// continue path from the send path.
    Commit { continued: bool },
}

/// Mathematical image of a session.
pub ghost struct SessionModel {
    pub request_id: Seq<char>,
    pub endpoint: EndpointModel,
    pub conversation: int,
    pub options: Seq<Seq<char>>,
    pub selected: Seq<Seq<char>>,
    pub user_input: Seq<char>,
    pub options_message_id: Option<int>,
    pub operation_message_id: Option<int>,
    pub cursor: int,
    pub phase: SessionPhase,
    pub continue_enabled: bool,
}

/// Pairwise-distinct labels.
pub open spec fn no_dups(s: Seq<Seq<char>>) -> bool {
    forall|i: int, j: int| 0 <= i < j < s.len() ==> s[i] != s[j]
}

impl SessionModel {
    /// The session invariant: the selected labels are distinct and all drawn
    /// from the predefined options.
    pub open spec fn wf(self) -> bool {
        &&& no_dups(self.selected)
        &&& forall|i: int|
            0 <= i < self.selected.len() ==> self.options.contains(#[trigger] self.selected[i])
    }

    /// The selected labels as a set; result ordering is never a contract.
    pub open spec fn selected_set(self) -> Set<Seq<char>> {
        self.selected.to_set()
    }
}

/// Flipping one label's membership in the selected set.
pub open spec fn spec_toggle(s: Set<Seq<char>>, option: Seq<char>) -> Set<Seq<char>> {
    if s.contains(option) {
        s.remove(option)
    } else {
        s.insert(option)
    }
}

/// Law: toggling the same option label twice returns the selected set to
/// exactly its original state.
pub proof fn lemma_toggle_twice(s: Set<Seq<char>>, option: Seq<char>)
    ensures
        spec_toggle(spec_toggle(s, option), option) == s,
{
    if s.contains(option) {
        assert(spec_toggle(spec_toggle(s, option), option) =~= s);
    } else {
        assert(spec_toggle(spec_toggle(s, option), option) =~= s);
    }
}

/// The poll cursor after one update id has been seen: it moves past the
/// update and never back.
pub open spec fn spec_cursor_after(cursor: int, update_id: int) -> int {
    if update_id + 1 > cursor {
        update_id + 1
    } else {
        cursor
    }
}

/// The poll cursor after a whole batch of update ids, in order.
pub open spec fn spec_cursor_after_batch(cursor: int, update_ids: Seq<int>) -> int
    decreases update_ids.len(),
{
    if update_ids.len() == 0 {
        cursor
    } else {
        spec_cursor_after_batch(spec_cursor_after(cursor, update_ids[0]), update_ids.drop_first())
    }
}

/// Law: across any sequence of polled updates the cursor never rewinds —
/// and a poll that returns an error contributes no ids, so it leaves the
/// cursor where it stood.
pub proof fn lemma_cursor_never_rewinds(cursor: int, update_ids: Seq<int>)
    ensures
        spec_cursor_after_batch(cursor, update_ids) >= cursor,
    decreases update_ids.len(),
{
    if update_ids.len() > 0 {
        lemma_cursor_never_rewinds(spec_cursor_after(cursor, update_ids[0]), update_ids.drop_first());
    }
}

/// The interactive-message anchor after one update has been seen: a message
/// carrying this session's toggle markup re-anchors it; a button press
/// anchors it when it was still unknown.
pub open spec fn spec_anchor_after(s: SessionModel, u: UpdateKindModel) -> Option<int> {
    match u {
        UpdateKindModel::Message { text: _, message_id, conversation: c, has_toggle_markup } => {
            if has_toggle_markup && c == s.conversation && s.options.len() > 0 {
                Some(message_id)
            } else {
                s.options_message_id
            }
        },
        UpdateKindModel::ButtonPress { payload: _, message_id, conversation: c } => {
            if c == s.conversation && s.options.len() > 0 && s.options_message_id is None {
                Some(message_id)
            } else {
                s.options_message_id
            }
        },
        UpdateKindModel::Other => s.options_message_id,
    }
}

/// One request's interaction session.
pub struct InteractionSession {
    pub request_id: String,
    pub endpoint: ChannelEndpoint,
    pub conversation: i64,
    pub predefined_options: Vec<String>,
    pub selected: Vec<String>,
    pub user_input: String,
    pub options_message_id: Option<i64>,
    pub operation_message_id: Option<i64>,
    pub cursor: u64,
    pub phase: SessionPhase,
    pub continue_enabled: bool,
}

impl View for InteractionSession {
    type V = SessionModel;

    open spec fn view(&self) -> SessionModel {
        SessionModel {
            request_id: self.request_id@,
            endpoint: self.endpoint@,
            conversation: self.conversation as int,
            options: self.predefined_options.deep_view(),
            selected: self.selected.deep_view(),
            user_input: self.user_input@,
            options_message_id: match self.options_message_id {
                Some(m) => Some(m as int),
                None => None,
            },
            operation_message_id: match self.operation_message_id {
                Some(m) => Some(m as int),
                None => None,
            },
            cursor: self.cursor as int,
            phase: self.phase,
            continue_enabled: self.continue_enabled,
        }
    }
}

impl InteractionSession {
    /// A fresh session for one routed request: nothing selected, no text,
    /// nothing posted yet.
    pub fn new(
        request_id: String,
        endpoint: ChannelEndpoint,
        conversation: i64,
        predefined_options: Vec<String>,
        continue_enabled: bool,
    ) -> (r: Self)
        ensures
            r@.wf(),
            r@.request_id == request_id@,
            r@.endpoint == endpoint@,
            r@.conversation == conversation as int,
            r@.options == predefined_options.deep_view(),
            r@.selected.len() == 0,
            r@.user_input.len() == 0,
            r@.options_message_id is None,
            r@.operation_message_id is None,
            r@.cursor == 0,
            r@.phase == SessionPhase::Posting,
            r@.continue_enabled == continue_enabled,
    {
        let r = InteractionSession {
            request_id,
            endpoint,
            conversation,
            predefined_options,
            selected: Vec::new(),
            user_input: String::new(),
            options_message_id: None,
            operation_message_id: None,
            cursor: 0,
            phase: SessionPhase::Posting,
            continue_enabled,
        };
        proof {
            assert(r@.selected =~= Seq::<Seq<char>>::empty());
        }
        r
    }

    /// Records that the interactive and operation messages were delivered:
    /// the session starts polling. The operation message's id becomes the
    /// cutoff below which older messages are noise.
    pub fn mark_posted(&mut self, operation_message_id: Option<i64>)
        requires
            old(self)@.phase == SessionPhase::Posting,
        ensures
            final(self)@ == (SessionModel {
                phase: SessionPhase::Polling,
                operation_message_id: match operation_message_id {
                    Some(m) => Some(m as int),
                    None => None,
                },
                ..old(self)@
            }),
    {
        self.operation_message_id = operation_message_id;
        self.phase = SessionPhase::Polling;
    }

    /// Advances the poll cursor past an update id. The cursor never rewinds:
    /// its new value is the larger of the old cursor and `update_id + 1`.
    pub fn advance_cursor(&mut self, update_id: u32)
        ensures
            final(self)@ == (SessionModel { cursor: final(self)@.cursor, ..old(self)@ }),
            final(self)@.cursor == spec_cursor_after(old(self)@.cursor, update_id as int),
            final(self)@.cursor >= old(self)@.cursor,
            final(self)@.cursor > update_id,
    {
        let next: u64 = update_id as u64 + 1;
        if next > self.cursor {
            self.cursor = next;
        }
    }

    /// Applies one classified event to the session state. A toggle flips the
    /// label's membership in the selected set; new text replaces the buffer;
    /// a commit event completes the session; noise changes nothing.
    pub fn apply_event(&mut self, event: &DomainEvent)
        requires
            old(self)@.wf(),
            match event@ {
                EventModel::Toggled { option, now_selected } => old(self)@.options.contains(option)
                    && now_selected == !old(self)@.selected.contains(option),
                _ => true,
            },
        ensures
            final(self)@.wf(),
            final(self)@.request_id == old(self)@.request_id,
            final(self)@.endpoint == old(self)@.endpoint,
            final(self)@.conversation == old(self)@.conversation,
            final(self)@.options == old(self)@.options,
            final(self)@.options_message_id == old(self)@.options_message_id,
            final(self)@.operation_message_id == old(self)@.operation_message_id,
            final(self)@.cursor == old(self)@.cursor,
            final(self)@.continue_enabled == old(self)@.continue_enabled,
            match event@ {
                EventModel::Toggled { option, now_selected } => {
                    &&& final(self)@.selected_set() == spec_toggle(old(self)@.selected_set(), option)
                    &&& final(self)@.selected.contains(option) == now_selected
                    &&& final(self)@.user_input == old(self)@.user_input
                    &&& final(self)@.phase == old(self)@.phase
                },
                EventModel::Text { text } => {
                    &&& final(self)@.user_input == text
                    &&& final(self)@.selected == old(self)@.selected
                    &&& final(self)@.phase == old(self)@.phase
                },
                EventModel::Send => {
                    &&& final(self)@.selected == old(self)@.selected
                    &&& final(self)@.user_input == old(self)@.user_input
                    &&& final(self)@.phase == SessionPhase::Completed
                },
                EventModel::Continue => {
                    &&& final(self)@.selected == old(self)@.selected
                    &&& final(self)@.user_input == old(self)@.user_input
                    &&& final(self)@.phase == SessionPhase::Completed
                },
                EventModel::Ignored => {
                    &&& final(self)@.selected == old(self)@.selected
                    &&& final(self)@.user_input == old(self)@.user_input
                    &&& final(self)@.phase == old(self)@.phase
                },
            },
    {
        match event {
            DomainEvent::OptionToggled { option, now_selected: _ } => {
                self.toggle_option(option.as_str());
            }
            DomainEvent::TextUpdated { text } => {
                self.user_input = text.clone();
            }
            DomainEvent::SendPressed => {
                self.phase = SessionPhase::Completed;
            }
            DomainEvent::ContinuePressed => {
                self.phase = SessionPhase::Completed;
            }
            DomainEvent::Ignored => {}
        }
    }

    /// Processes one polled update: re-anchors the interactive message if
    /// the update reveals it, classifies the update in this session's
    /// context, applies the resulting event, and advances the cursor past
    /// the update — seen or ignored alike, so no update is ever reprocessed.
    /// Returns the event (for the host's observability) and what the host
    /// must do next.
    pub fn process_update(&mut self, update: &Update) -> (r: (DomainEvent, StepAction))
        requires
            old(self)@.wf(),
            old(self)@.phase == SessionPhase::Polling,
        ensures
            final(self)@.wf(),
            final(self)@.request_id == old(self)@.request_id,
            final(self)@.endpoint == old(self)@.endpoint,
            final(self)@.conversation == old(self)@.conversation,
            final(self)@.options == old(self)@.options,
            final(self)@.continue_enabled == old(self)@.continue_enabled,
            final(self)@.operation_message_id == old(self)@.operation_message_id,
            final(self)@.options_message_id == spec_anchor_after(old(self)@, update.kind@),
            final(self)@.cursor >= old(self)@.cursor,
            final(self)@.cursor > update.update_id,
            final(self)@.cursor == spec_cursor_after(old(self)@.cursor, update.update_id as int),
            r.0@ == classify_model(
                old(self)@.options,
                old(self)@.selected,
                old(self)@.conversation,
                old(self)@.operation_message_id,
                update.kind@,
            ),
            match r.0@ {
                EventModel::Toggled { option, now_selected } => {
                    &&& final(self)@.selected_set() == spec_toggle(old(self)@.selected_set(), option)
                    &&& final(self)@.selected.contains(option) == now_selected
                    &&& final(self)@.user_input == old(self)@.user_input
                    &&& final(self)@.phase == SessionPhase::Polling
                },
                EventModel::Text { text } => {
                    &&& final(self)@.user_input == text
                    &&& final(self)@.selected == old(self)@.selected
                    &&& final(self)@.phase == SessionPhase::Polling
                },
                EventModel::Send => {
                    &&& final(self)@.selected == old(self)@.selected
                    &&& final(self)@.user_input == old(self)@.user_input
                    &&& final(self)@.phase == SessionPhase::Completed
                },
                EventModel::Continue => {
                    &&& final(self)@.selected == old(self)@.selected
                    &&& final(self)@.user_input == old(self)@.user_input
                    &&& final(self)@.phase == SessionPhase::Completed
                },
                EventModel::Ignored => {
                    &&& final(self)@.selected == old(self)@.selected
                    &&& final(self)@.user_input == old(self)@.user_input
                    &&& final(self)@.phase == SessionPhase::Polling
                },
            },
            match r.0@ {
                EventModel::Toggled { .. } => match final(self)@.options_message_id {
                    Some(mid) => r.1 matches StepAction::RefreshMarkup { message_id }
                        && message_id as int == mid,
                    None => r.1 == StepAction::Idle,
                },
                EventModel::Send => r.1 == (StepAction::Commit { continued: false }),
                EventModel::Continue => r.1 == (StepAction::Commit { continued: true }),
                EventModel::Text { .. } => r.1 == StepAction::Idle,
                EventModel::Ignored => r.1 == StepAction::Idle,
            },
    {
        // (re)discover the interactive-message anchor
        match &update.kind {
            UpdateKind::Message { text: _, message_id, conversation, has_toggle_markup } => {
                if *has_toggle_markup && *conversation == self.conversation
                    && self.predefined_options.len() > 0 {
                    self.options_message_id = Some(*message_id);
                }
            }
            UpdateKind::ButtonPress { payload: _, message_id, conversation } => {
                if *conversation == self.conversation && self.predefined_options.len() > 0
                    && self.options_message_id.is_none() {
                    self.options_message_id = Some(*message_id);
                }
            }
            UpdateKind::Other => {}
        }
        proof {
            assert(self@.options.len() == self.predefined_options.len());
        }

        let ev = classify_update(
            &self.predefined_options,
            &self.selected,
            self.conversation,
            self.operation_message_id,
            &update.kind,
        );
        proof {
            match ev@ {
                EventModel::Toggled { option, now_selected } => {
                    assert(self@.options.contains(option));
                    assert(now_selected == !self@.selected.contains(option));
                },
                _ => {},
            }
        }
        self.apply_event(&ev);

        let action = match &ev {
            DomainEvent::OptionToggled { .. } => match self.options_message_id {
                Some(mid) => StepAction::RefreshMarkup { message_id: mid },
                None => StepAction::Idle,
            },
            DomainEvent::SendPressed => StepAction::Commit { continued: false },
            DomainEvent::ContinuePressed => StepAction::Commit { continued: true },
            DomainEvent::TextUpdated { .. } => StepAction::Idle,
            DomainEvent::Ignored => StepAction::Idle,
        };

        self.advance_cursor(update.update_id);
        (ev, action)
    }

    /// The currently selected option labels, as last reconciled.
    pub fn get_selected_options(&self) -> (r: Vec<String>)
        ensures
            r.deep_view() == self@.selected,
    {
        let mut out: Vec<String> = Vec::new();
        let n = self.selected.len();
        let mut i: usize = 0;
        while i < n
            invariant
                i <= n,
                n == self.selected.len(),
                out.deep_view() == self@.selected.take(i as int),
            decreases n - i,
        {
            let ghost prev = out.deep_view();
            out.push(self.selected[i].clone());
            proof {
                assert(out.deep_view() =~= prev.push(self@.selected[i as int]));
                assert(prev.push(self@.selected[i as int]) =~= self@.selected.take(i + 1));
            }
            i += 1;
        }
        proof {
            assert(self@.selected.take(n as int) =~= self@.selected);
        }
        out
    }

    /// The free-text buffer, as last overwritten.
    pub fn get_user_input(&self) -> (r: String)
        ensures
            r@ == self@.user_input,
    {
        self.user_input.clone()
    }

    /// Flips one label's membership in the selected set.
    fn toggle_option(&mut self, option: &str)
        requires
            old(self)@.wf(),
            old(self)@.options.contains(option@),
        ensures
            final(self)@.wf(),
            final(self)@ == (SessionModel { selected: final(self)@.selected, ..old(self)@ }),
            final(self)@.selected_set() == spec_toggle(old(self)@.selected_set(), option@),
            final(self)@.selected.contains(option@) == !old(self)@.selected.contains(option@),
    {
        let ghost old_sel = self@.selected;
        let n = self.selected.len();
        let mut i: usize = 0;
        while i < n
            invariant
                i <= n,
                *self == *old(self),
                old(self)@.wf(),
                old(self)@.options.contains(option@),
                old_sel == self@.selected,
                n == self.selected.len(),
                forall|j: int| 0 <= j < i ==> self@.selected[j] != option@,
            decreases n - i,
        {
            if str_eq(self.selected[i].as_str(), option) {
                proof {
                    assert(self@.selected[i as int] == option@);
                    assert(old_sel.contains(option@));
                }
                self.selected.remove(i);
                proof {
                    let m = self@.selected;
                    assert(m =~= old_sel.remove(i as int));
                    // distinctness survives the removal
                    assert forall|a: int, b: int| 0 <= a < b < m.len() implies m[a] != m[b] by {
                        let a0 = if a < i { a } else { a + 1 };
                        let b0 = if b < i { b } else { b + 1 };
                        assert(m[a] == old_sel[a0]);
                        assert(m[b] == old_sel[b0]);
                    }
                    // the label is gone
                    assert forall|a: int| 0 <= a < m.len() implies m[a] != option@ by {
                        let a0 = if a < i { a } else { a + 1 };
                        assert(m[a] == old_sel[a0]);
                    }
                    assert(!m.contains(option@));
                    // every remaining label is still drawn from the options
                    assert forall|a: int| 0 <= a < m.len() implies self@.options.contains(
                        #[trigger] m[a],
                    ) by {
                        let a0 = if a < i { a } else { a + 1 };
                        assert(m[a] == old_sel[a0]);
                    }
                    // set image: exactly the old set without the label
                    assert forall|x: Seq<char>| m.to_set().contains(x) implies old_sel.to_set()
                        .remove(option@).contains(x) by {
                        let a = choose|a: int| 0 <= a < m.len() && m[a] == x;
                        let a0 = if a < i { a } else { a + 1 };
                        assert(old_sel[a0] == x);
                    }
                    assert forall|x: Seq<char>|
                        old_sel.to_set().remove(option@).contains(x) implies m.to_set().contains(
                        x,
                    ) by {
                        let a0 = choose|a0: int| 0 <= a0 < old_sel.len() && old_sel[a0] == x;
                        assert(a0 != i);
                        let a = if a0 < i { a0 } else { a0 - 1 };
                        assert(m[a] == x);
                    }
                    assert(m.to_set() =~= old_sel.to_set().remove(option@));
                }
                return ;
            }
            i += 1;
        }
        proof {
            assert(!old_sel.contains(option@)) by {
                if old_sel.contains(option@) {
                    let j = choose|j: int| 0 <= j < old_sel.len() && old_sel[j] == option@;
                    assert(old_sel[j] != option@);
                }
            }
        }
        self.selected.push(String::from_str(option));
        proof {
            let m = self@.selected;
            assert(m =~= old_sel.push(option@));
            assert forall|a: int, b: int| 0 <= a < b < m.len() implies m[a] != m[b] by {
                if b < old_sel.len() {
                    assert(m[a] == old_sel[a]);
                    assert(m[b] == old_sel[b]);
                } else {
                    assert(m[a] == old_sel[a]);
                    assert(m[b] == option@);
                    if old_sel[a] == option@ {
                        assert(old_sel.contains(option@));
                    }
                }
            }
            assert forall|a: int| 0 <= a < m.len() implies self@.options.contains(
                #[trigger] m[a],
            ) by {
                if a < old_sel.len() {
                    assert(m[a] == old_sel[a]);
                } else {
                    assert(m[a] == option@);
                }
            }
            assert(m[m.len() - 1] == option@);
            assert(m.contains(option@));
            assert forall|x: Seq<char>| m.to_set().contains(x) implies old_sel.to_set().insert(
                option@,
            ).contains(x) by {
                let a = choose|a: int| 0 <= a < m.len() && m[a] == x;
                if a < old_sel.len() {
                    assert(old_sel[a] == x);
                }
            }
            assert forall|x: Seq<char>|
                old_sel.to_set().insert(option@).contains(x) implies m.to_set().contains(x) by {
                if x == option@ {
                    assert(m[m.len() - 1] == x);
                } else {
                    let a = choose|a: int| 0 <= a < old_sel.len() && old_sel[a] == x;
                    assert(m[a] == x);
                }
            }
            assert(m.to_set() =~= old_sel.to_set().insert(option@));
        }
    }
}

} // verus!
