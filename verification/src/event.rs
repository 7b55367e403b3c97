//! The tagged event variants carried from the database listener to the
//! subscribers, and the eligibility rule deciding which subscribers an event
//! concerns: a subscriber sees an event exactly when its user id is among the
//! event's members and its workspace id equals the event's workspace id.

use vstd::prelude::*;

verus! {

/// The four chat flavours; also the `kind` carried by chat events.
#[derive(Clone, Copy, Debug, PartialEq, Eq, Structural)]
pub enum ChatType {
    Single,
    Group,
    PrivateChannel,
    PublicChannel,
}

/// A change observed through the database notification channels.
///
/// `members` is the set of user ids copied into the payload at trigger time,
/// so recipients are computed without further database reads; timestamps are
/// UTC, in whole seconds.
pub enum Event {
    ChatUpserted {
        chat_id: i64,
        workspace_id: i64,
        members: Vec<i64>,
        name: Option<String>,
        kind: ChatType,
    },
    ChatDeleted { chat_id: i64, workspace_id: i64, members: Vec<i64> },
    MessageCreated {
        message_id: i64,
        chat_id: i64,
        workspace_id: i64,
        sender_id: i64,
        members: Vec<i64>,
        created_at: i64,
    },
}

/// The mathematical value of an [`Event`].
pub enum EventV {
    ChatUpserted {
        chat_id: i64,
        workspace_id: i64,
        members: Seq<i64>,
        name: Option<Seq<char>>,
        kind: ChatType,
    },
    ChatDeleted { chat_id: i64, workspace_id: i64, members: Seq<i64> },
    MessageCreated {
        message_id: i64,
        chat_id: i64,
        workspace_id: i64,
        sender_id: i64,
        members: Seq<i64>,
        created_at: i64,
    },
}

impl View for Event {
    type V = EventV;

    open spec fn view(&self) -> EventV {
        match self {
            Event::ChatUpserted { chat_id, workspace_id, members, name, kind } => {
                EventV::ChatUpserted {
                    chat_id: *chat_id,
                    workspace_id: *workspace_id,
                    members: members@,
                    name: match name {
                        Some(n) => Some(n@),
                        None => None,
                    },
                    kind: *kind,
                }
            },
            Event::ChatDeleted { chat_id, workspace_id, members } => {
                EventV::ChatDeleted {
                    chat_id: *chat_id,
                    workspace_id: *workspace_id,
                    members: members@,
                }
            },
            Event::MessageCreated {
                message_id,
                chat_id,
                workspace_id,
                sender_id,
                members,
                created_at,
            } => {
                EventV::MessageCreated {
                    message_id: *message_id,
                    chat_id: *chat_id,
                    workspace_id: *workspace_id,
                    sender_id: *sender_id,
                    members: members@,
                    created_at: *created_at,
                }
            },
        }
    }
}

impl EventV {
    /// The routing members of the event.
    pub open spec fn members(self) -> Seq<i64> {
        match self {
            EventV::ChatUpserted { members, .. } => members,
            EventV::ChatDeleted { members, .. } => members,
            EventV::MessageCreated { members, .. } => members,
        }
    }

    /// The workspace the event belongs to.
    pub open spec fn workspace_id(self) -> i64 {
        match self {
            EventV::ChatUpserted { workspace_id, .. } => workspace_id,
            EventV::ChatDeleted { workspace_id, .. } => workspace_id,
            EventV::MessageCreated { workspace_id, .. } => workspace_id,
        }
    }
}

/// The eligibility rule: an event is delivered to a subscriber exactly when
/// the subscriber's user id is one of the event's members and the
/// subscriber's workspace equals the event's workspace.
pub open spec fn spec_eligible(ev: EventV, user_id: i64, workspace_id: i64) -> bool {
    ev.members().contains(user_id) && ev.workspace_id() == workspace_id
}

/// Whether `v` holds `x`.
pub(crate) fn vec_contains_i64(v: &Vec<i64>, x: i64) -> (r: bool)
    ensures
        r == v@.contains(x),
{
    let mut i: usize = 0;
    while i < v.len()
        invariant
            i <= v@.len(),
            forall|j: int| 0 <= j < i ==> v@[j] != x,
        decreases v@.len() - i,
    {
        if v[i] == x {
            return true;
        }
        i = i + 1;
    }
    false
}

/// Decides [`spec_eligible`] for a live subscriber.
pub fn eligible(ev: &Event, user_id: i64, workspace_id: i64) -> (r: bool)
    ensures
        r == spec_eligible(ev@, user_id, workspace_id),
{
    let (members, ws) = match ev {
        Event::ChatUpserted { workspace_id: w, members, .. } => (members, *w),
        Event::ChatDeleted { workspace_id: w, members, .. } => (members, *w),
        Event::MessageCreated { workspace_id: w, members, .. } => (members, *w),
    };
    ws == workspace_id && vec_contains_i64(members, user_id)
}

} // verus!
