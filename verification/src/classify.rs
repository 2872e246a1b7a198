//! The update classifier: turns one raw channel update, in the context of a
//! session, into a single domain event. Classification is pure — it never
//! mutates session state — and filters noise: foreign conversations, stale
//! button payloads, messages from before the session's own posts.

use vstd::prelude::*;
use crate::strutil::{spec_has_prefix, has_prefix, str_eq, suffix_from};

verus! {

/// One raw update delivered by the channel transport.
pub struct Update {
    pub update_id: u32,
    pub kind: UpdateKind,
}

/// The payload of one raw update.
pub enum UpdateKind {
    /// A button-press event: the button's callback payload, the message the
    /// button belongs to, and the conversation it came from.
    ButtonPress { payload: String, message_id: i64, conversation: i64 },
    /// A plain message: its text, its id, its conversation, and whether it
    /// carries this bridge's toggle-button markup.
    Message { text: String, message_id: i64, conversation: i64, has_toggle_markup: bool },
    /// Any other update kind the transport may deliver.
    Other,
}

/// A classified domain event, consumed by the interaction session.
pub enum DomainEvent {
    /// A predefined option was toggled; `now_selected` is its membership in
    /// the selected set after the flip.
    OptionToggled { option: String, now_selected: bool },
    /// The free-text buffer is replaced with this text.
    TextUpdated { text: String },
    /// The human committed the current selection and text.
    SendPressed,
    /// The human skipped the interaction.
    ContinuePressed,
    /// Noise: nothing to do.
    Ignored,
}

/// Mathematical image of an update payload.
pub ghost enum UpdateKindModel {
    ButtonPress { payload: Seq<char>, message_id: int, conversation: int },
    Message { text: Seq<char>, message_id: int, conversation: int, has_toggle_markup: bool },
    Other,
}

/// Mathematical image of a domain event.
pub ghost enum EventModel {
    Toggled { option: Seq<char>, now_selected: bool },
    Text { text: Seq<char> },
    Send,
    Continue,
    Ignored,
}

impl View for UpdateKind {
    type V = UpdateKindModel;

    open spec fn view(&self) -> UpdateKindModel {
        match self {
            UpdateKind::ButtonPress { payload, message_id, conversation } =>
                UpdateKindModel::ButtonPress {
                    payload: payload@,
                    message_id: *message_id as int,
                    conversation: *conversation as int,
                },
            UpdateKind::Message { text, message_id, conversation, has_toggle_markup } =>
                UpdateKindModel::Message {
                    text: text@,
                    message_id: *message_id as int,
                    conversation: *conversation as int,
                    has_toggle_markup: *has_toggle_markup,
                },
            UpdateKind::Other => UpdateKindModel::Other,
        }
    }
}

impl View for DomainEvent {
    type V = EventModel;

    open spec fn view(&self) -> EventModel {
        match self {
            DomainEvent::OptionToggled { option, now_selected } => EventModel::Toggled {
                option: option@,
                now_selected: *now_selected,
            },
            DomainEvent::TextUpdated { text } => EventModel::Text { text: text@ },
            DomainEvent::SendPressed => EventModel::Send,
            DomainEvent::ContinuePressed => EventModel::Continue,
            DomainEvent::Ignored => EventModel::Ignored,
        }
    }
}

/// The command token that commits the current selection and text.
pub open spec fn spec_send_token() -> Seq<char> {
    "Send"@
}

/// The command token that skips the interaction.
pub open spec fn spec_continue_token() -> Seq<char> {
    "Continue"@
}

/// The canonical send command token.
pub fn send_token() -> (r: &'static str)
    ensures
        r@ == spec_send_token(),
{
    "Send"
}

/// The canonical continue command token.
pub fn continue_token() -> (r: &'static str)
    ensures
        r@ == spec_continue_token(),
{
    "Continue"
}

/// The button payload carrying an option label: the label rides verbatim
/// behind a fixed prefix and must round-trip exactly.
pub open spec fn toggle_payload_model(option: Seq<char>) -> Seq<char> {
    "toggle:"@ + option
}

/// Builds the button payload for an option label.
pub fn toggle_payload(option: &str) -> (r: String)
    ensures
        r@ == toggle_payload_model(option@),
{
    let mut s = String::from_str("toggle:");
    s.append(option);
    s
}

/// The option label a button payload addresses, provided the label is one of
/// the expected options; anything else is noise.
pub open spec fn parse_toggle(payload: Seq<char>, options: Seq<Seq<char>>) -> Option<Seq<char>> {
    if spec_has_prefix(payload, "toggle:"@) {
        let rest = payload.subrange("toggle:"@.len() as int, payload.len() as int);
        if options.contains(rest) {
            Some(rest)
        } else {
            None
        }
    } else {
        None
    }
}

/// Law: a toggle payload built from an expected option label parses back to
/// exactly that label — the encoding round-trips.
pub proof fn lemma_toggle_payload_round_trip(options: Seq<Seq<char>>, option: Seq<char>)
    requires
        options.contains(option),
    ensures
        parse_toggle(toggle_payload_model(option), options) == Some(option),
{
    let payload = toggle_payload_model(option);
    let plen = "toggle:"@.len() as int;
    assert(payload.subrange(0, plen) =~= "toggle:"@);
    assert(payload.subrange(plen, payload.len() as int) =~= option);
}

/// Matches a button payload against the expected option labels.
pub fn match_toggle_option(payload: &str, options: &Vec<String>) -> (r: Option<String>)
    ensures
        match r {
            Some(o) => parse_toggle(payload@, options.deep_view()) == Some(o@),
            None => parse_toggle(payload@, options.deep_view()) is None,
        },
{
    if !has_prefix(payload, "toggle:") {
        return None;
    }
    let plen = "toggle:".unicode_len();
    let rest = suffix_from(payload, plen);
    let n = options.len();
    let mut i: usize = 0;
    while i < n
        invariant
            i <= n,
            n == options.len(),
            rest@ == payload@.subrange("toggle:"@.len() as int, payload@.len() as int),
            spec_has_prefix(payload@, "toggle:"@),
            forall|j: int| 0 <= j < i ==> options.deep_view()[j] != rest@,
        decreases n - i,
    {
        if str_eq(options[i].as_str(), rest.as_str()) {
            proof {
                assert(options.deep_view()[i as int] == rest@);
                assert(options.deep_view().contains(rest@));
            }
            return Some(rest);
        }
        i += 1;
    }
    proof {
        if options.deep_view().contains(rest@) {
            let j = choose|j: int|
                0 <= j < options.deep_view().len() && options.deep_view()[j] == rest@;
            assert(options.deep_view()[j] != rest@);
        }
    }
    None
}

/// What one toggle button shows: a marked label when selected, the bare
/// label otherwise, so the human sees live toggle state.
pub open spec fn spec_button_label(option: Seq<char>, selected: bool) -> Seq<char> {
    if selected {
        "[x] "@ + option
    } else {
        option
    }
}

/// Renders one toggle button's visible label.
pub fn button_label(option: &str, selected: bool) -> (r: String)
    ensures
        r@ == spec_button_label(option@, selected),
{
    if selected {
        let mut s = String::from_str("[x] ");
        s.append(option);
        s
    } else {
        String::from_str(option)
    }
}

/// One toggle button: its visible label and its callback payload.
pub struct ToggleButton {
    pub label: String,
    pub payload: String,
}

/// Builds the toggle keyboard for the interactive message: one button per
/// predefined option, in order, each marked by its membership in the
/// selected set and carrying its label verbatim in the payload.
pub fn keyboard_buttons(options: &Vec<String>, selected: &Vec<String>) -> (r: Vec<ToggleButton>)
    ensures
        r.len() == options.len(),
        forall|i: int|
            0 <= i < r.len() ==> (#[trigger] r@[i]).label@ == spec_button_label(
                options.deep_view()[i],
                selected.deep_view().contains(options.deep_view()[i]),
            ) && r@[i].payload@ == toggle_payload_model(options.deep_view()[i]),
{
    let mut out: Vec<ToggleButton> = Vec::new();
    let n = options.len();
    let mut i: usize = 0;
    while i < n
        invariant
            i <= n,
            n == options.len(),
            out.len() == i,
            forall|j: int|
                0 <= j < i ==> (#[trigger] out@[j]).label@ == spec_button_label(
                    options.deep_view()[j],
                    selected.deep_view().contains(options.deep_view()[j]),
                ) && out@[j].payload@ == toggle_payload_model(options.deep_view()[j]),
        decreases n - i,
    {
        let already = contains_string(selected, options[i].as_str());
        let button = ToggleButton {
            label: button_label(options[i].as_str(), already),
            payload: toggle_payload(options[i].as_str()),
        };
        out.push(button);
        i += 1;
    }
    out
}

/// The conversation id of the first plain-message update in a batch, if
/// any: how a chat id is discovered when none is configured yet.
pub fn first_message_conversation(updates: &Vec<Update>) -> (r: Option<i64>)
    ensures
        match r {
            Some(c) => exists|i: int|
                0 <= i < updates@.len() && ((#[trigger] updates@[i].kind@) matches
                    UpdateKindModel::Message { conversation, .. } && conversation == c as int)
                    && (forall|j: int|
                    0 <= j < i ==> !((#[trigger] updates@[j].kind@) matches
                        UpdateKindModel::Message { .. })),
            None => forall|i: int|
                0 <= i < updates@.len() ==> !((#[trigger] updates@[i].kind@) matches
                    UpdateKindModel::Message { .. }),
        },
{
    let n = updates.len();
    let mut i: usize = 0;
    while i < n
        invariant
            i <= n,
            n == updates@.len(),
            forall|j: int|
                0 <= j < i ==> !((#[trigger] updates@[j].kind@) matches UpdateKindModel::Message {
                    ..
                }),
        decreases n - i,
    {
        if let UpdateKind::Message { text: _, message_id: _, conversation, has_toggle_markup: _ } =
            &updates[i].kind {
            let c = *conversation;
            proof {
                assert((updates@[i as int].kind@) matches UpdateKindModel::Message { .. });
            }
            return Some(c);
        }
        i += 1;
    }
    None
}

/// The event one raw update yields, given the session's context: its
/// expected option labels, its currently selected labels, its target
/// conversation, and an optional message-id cutoff below which nothing is
/// processed.
pub open spec fn classify_model(
    options: Seq<Seq<char>>,
    selected: Seq<Seq<char>>,
    conversation: int,
    cutoff: Option<int>,
    u: UpdateKindModel,
) -> EventModel {
    match u {
        UpdateKindModel::ButtonPress { payload, message_id: _, conversation: c } => {
            if c != conversation {
                EventModel::Ignored
            } else if options.len() == 0 {
                EventModel::Ignored
            } else {
                match parse_toggle(payload, options) {
                    Some(option) => EventModel::Toggled {
                        option,
                        now_selected: !selected.contains(option),
                    },
                    None => EventModel::Ignored,
                }
            }
        },
        UpdateKindModel::Message { text, message_id, conversation: c, has_toggle_markup } => {
            if c != conversation {
                EventModel::Ignored
            } else if has_toggle_markup {
                EventModel::Ignored
            } else if match cutoff {
                Some(m) => message_id < m,
                None => false,
            } {
                EventModel::Ignored
            } else if text == spec_send_token() {
                EventModel::Send
            } else if text == spec_continue_token() {
                EventModel::Continue
            } else if text.len() > 0 {
                EventModel::Text { text }
            } else {
                EventModel::Ignored
            }
        },
        UpdateKindModel::Other => EventModel::Ignored,
    }
}

/// Law: a button payload addressing a label outside the session's predefined
/// options classifies as noise.
pub proof fn lemma_unknown_toggle_ignored(
    options: Seq<Seq<char>>,
    selected: Seq<Seq<char>>,
    conversation: int,
    cutoff: Option<int>,
    label: Seq<char>,
    message_id: int,
)
    requires
        !options.contains(label),
    ensures
        classify_model(
            options,
            selected,
            conversation,
            cutoff,
            UpdateKindModel::ButtonPress {
                payload: toggle_payload_model(label),
                message_id,
                conversation,
            },
        ) == EventModel::Ignored,
{
    let payload = toggle_payload_model(label);
    let plen = "toggle:"@.len() as int;
    if spec_has_prefix(payload, "toggle:"@) {
        assert(payload.subrange(plen, payload.len() as int) =~= label);
    }
}

/// Law: an update from a foreign conversation is always noise, whatever its
/// payload or text.
pub proof fn lemma_foreign_conversation_ignored(
    options: Seq<Seq<char>>,
    selected: Seq<Seq<char>>,
    conversation: int,
    cutoff: Option<int>,
    u: UpdateKindModel,
)
    requires
        match u {
            UpdateKindModel::ButtonPress { conversation: c, .. } => c != conversation,
            UpdateKindModel::Message { conversation: c, .. } => c != conversation,
            UpdateKindModel::Other => true,
        },
    ensures
        classify_model(options, selected, conversation, cutoff, u) == EventModel::Ignored,
{
}

/// Classifies one raw update in the session's context.
pub fn classify_update(
    options: &Vec<String>,
    selected: &Vec<String>,
    conversation: i64,
    cutoff: Option<i64>,
    update: &UpdateKind,
) -> (ev: DomainEvent)
    ensures
        ev@ == classify_model(
            options.deep_view(),
            selected.deep_view(),
            conversation as int,
            match cutoff {
                Some(m) => Some(m as int),
                None => None,
            },
            update@,
        ),
{
    match update {
        UpdateKind::ButtonPress { payload, message_id: _, conversation: c } => {
            if *c != conversation {
                return DomainEvent::Ignored;
            }
            if options.len() == 0 {
                proof {
                    assert(options.deep_view().len() == 0);
                }
                return DomainEvent::Ignored;
            }
            match match_toggle_option(payload.as_str(), options) {
                Some(option) => {
                    let already = contains_string(selected, option.as_str());
                    DomainEvent::OptionToggled { option, now_selected: !already }
                }
                None => DomainEvent::Ignored,
            }
        }
        UpdateKind::Message { text, message_id, conversation: c, has_toggle_markup } => {
            if *c != conversation {
                return DomainEvent::Ignored;
            }
            if *has_toggle_markup {
                return DomainEvent::Ignored;
            }
            if let Some(m) = cutoff {
                if *message_id < m {
                    return DomainEvent::Ignored;
                }
            }
            if str_eq(text.as_str(), send_token()) {
                DomainEvent::SendPressed
            } else if str_eq(text.as_str(), continue_token()) {
                DomainEvent::ContinuePressed
            } else if text.unicode_len() > 0 {
                DomainEvent::TextUpdated { text: text.clone() }
            } else {
                DomainEvent::Ignored
            }
        }
        UpdateKind::Other => DomainEvent::Ignored,
    }
}

/// Whether a vector of strings holds this exact string.
pub fn contains_string(v: &Vec<String>, s: &str) -> (r: bool)
    ensures
        r == v.deep_view().contains(s@),
{
    let n = v.len();
    let mut i: usize = 0;
    while i < n
        invariant
            i <= n,
            n == v.len(),
            forall|j: int| 0 <= j < i ==> v.deep_view()[j] != s@,
        decreases n - i,
    {
        if str_eq(v[i].as_str(), s) {
            proof {
                assert(v.deep_view()[i as int] == s@);
            }
            return true;
        }
        i += 1;
    }
    proof {
        if v.deep_view().contains(s@) {
            let j = choose|j: int| 0 <= j < v.deep_view().len() && v.deep_view()[j] == s@;
            assert(v.deep_view()[j] != s@);
        }
    }
    false
}

} // verus!
