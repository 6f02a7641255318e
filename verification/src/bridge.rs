//! Event bridge: room events filtered and converted into UI messages.
//!
//! Within one sync response the homeserver hands events over in order; the
//! bridge keeps that order, delivering exactly the plain-text events of a
//! joined room whose sender is not the local user. The self-filter keeps
//! the server's echo of a just-sent message out of the scrollback, whose
//! local copy the shell appended when it was submitted.

use vstd::prelude::*;

use crate::clock::now_timestamp_ms;

verus! {

/// The local user's standing in the room an event arrived from.
#[derive(Clone, Copy, Debug, PartialEq, Eq, Structural)]
pub enum RoomStatus {
    Joined,
    Left,
    Invited,
}

/// What a room-message event carries.
pub enum MessageContent {
    /// A plain-text message body.
    Text(String),
    /// Any other message type; never delivered.
    NonText,
}

/// An inbound room-message event, as the bridge reads it.
pub struct RoomEvent {
    pub sender: String,
    pub content: MessageContent,
}

/// A scrollback entry.
pub struct UiMessage {
    pub sender: String,
    pub contents: String,
    /// Local wall-clock milliseconds at the moment the entry was made.
    pub timestamp_ms: i64,
}

/// Mathematical model of `MessageContent`.
pub enum MessageContentV {
    Text(Seq<char>),
    NonText,
}

/// Mathematical model of `RoomEvent`.
pub struct RoomEventV {
    pub sender: Seq<char>,
    pub content: MessageContentV,
}

/// Mathematical model of `UiMessage`.
pub struct UiMessageV {
    pub sender: Seq<char>,
    pub contents: Seq<char>,
    pub timestamp_ms: int,
}

impl View for MessageContent {
    type V = MessageContentV;

    open spec fn view(&self) -> MessageContentV {
        match self {
            MessageContent::Text(b) => MessageContentV::Text(b@),
            MessageContent::NonText => MessageContentV::NonText,
        }
    }
}

impl View for RoomEvent {
    type V = RoomEventV;

    open spec fn view(&self) -> RoomEventV {
        RoomEventV { sender: self.sender@, content: self.content@ }
    }
}

impl View for UiMessage {
    type V = UiMessageV;

    open spec fn view(&self) -> UiMessageV {
        UiMessageV {
            sender: self.sender@,
            contents: self.contents@,
            timestamp_ms: self.timestamp_ms as int,
        }
    }
}

/// The bridge's filter: an event reaches the UI exactly when the room is
/// joined, the sender is not the local user, and the message is plain
/// text.
pub open spec fn bridge_accepts(local_user: Seq<char>, status: RoomStatus, ev: RoomEventV) -> bool {
    &&& status is Joined
    &&& ev.sender != local_user
    &&& ev.content is Text
}

/// What of an accepted event reaches the scrollback: its sender and its
/// text body.
pub open spec fn delivered_pair(ev: RoomEventV) -> (Seq<char>, Seq<char>) {
    (ev.sender, ev.content->Text_0)
}

/// The label a room is shown under: its display name, or its opaque id
/// when resolving the name failed.
pub fn room_label(display_name: Option<String>, room_id: String) -> (r: String)
    ensures
        display_name matches Some(n) ==> r@ == n@,
        display_name is None ==> r@ == room_id@,
{
    match display_name {
        Some(n) => n,
        None => room_id,
    }
}

/// Filter and convert one room-message event. Delivers a scrollback entry
/// exactly when the bridge's filter accepts the event; the entry carries
/// the event's sender and text body, stamped with the wall clock.
pub fn on_room_message(event: &RoomEvent, status: RoomStatus, local_user: &String) -> (r: Option<
    UiMessage,
>)
    ensures
        r is Some <==> bridge_accepts(local_user@, status, event@),
        r matches Some(m) ==> (m.sender@, m.contents@) == delivered_pair(event@),
{
    match status {
        RoomStatus::Joined => {},
        _ => {
            return None;
        },
    }
    if event.sender.eq(local_user) {
        return None;
    }
    match &event.content {
        MessageContent::Text(body) => Some(
            UiMessage {
                sender: event.sender.clone(),
                contents: body.clone(),
                timestamp_ms: now_timestamp_ms(),
            },
        ),
        MessageContent::NonText => None,
    }
}

/// The sender/body pairs that one sync response's events put into the
/// scrollback: the accepted events, in server order.
pub open spec fn delivered(
    local_user: Seq<char>,
    status: RoomStatus,
    events: Seq<RoomEventV>,
) -> Seq<(Seq<char>, Seq<char>)>
    decreases events.len(),
{
    if events.len() == 0 {
        Seq::empty()
    } else {
        (if bridge_accepts(local_user, status, events[0]) {
            seq![delivered_pair(events[0])]
        } else {
            Seq::empty()
        }) + delivered(local_user, status, events.skip(1))
    }
}

/// Delivery of one more event appends its pair when accepted and nothing
/// otherwise.
proof fn lemma_delivered_push(
    local_user: Seq<char>,
    status: RoomStatus,
    events: Seq<RoomEventV>,
    e: RoomEventV,
)
    ensures
        delivered(local_user, status, events.push(e)) == delivered(local_user, status, events)
            + (if bridge_accepts(local_user, status, e) {
            seq![delivered_pair(e)]
        } else {
            Seq::<(Seq<char>, Seq<char>)>::empty()
        }),
    decreases events.len(),
{
    let tail = if bridge_accepts(local_user, status, e) {
        seq![delivered_pair(e)]
    } else {
        Seq::<(Seq<char>, Seq<char>)>::empty()
    };
    if events.len() == 0 {
        assert(events.push(e)[0] == e);
        assert(events.push(e).skip(1) =~= Seq::<RoomEventV>::empty());
        assert(delivered(local_user, status, Seq::<RoomEventV>::empty()) == Seq::<(
            Seq<char>,
            Seq<char>,
        )>::empty());
        assert(delivered(local_user, status, events.push(e)) =~= delivered(
            local_user,
            status,
            events,
        ) + tail);
    } else {
        assert(events.push(e)[0] == events[0]);
        assert(events.push(e).skip(1) =~= events.skip(1).push(e));
        lemma_delivered_push(local_user, status, events.skip(1), e);
        let h = if bridge_accepts(local_user, status, events[0]) {
            seq![delivered_pair(events[0])]
        } else {
            Seq::<(Seq<char>, Seq<char>)>::empty()
        };
        assert(h + (delivered(local_user, status, events.skip(1)) + tail) =~= (h + delivered(
            local_user,
            status,
            events.skip(1),
        )) + tail);
    }
}

/// The scrollback entries of the events before a split point and those
/// after it, in order, are exactly those of the whole.
proof fn lemma_delivered_split(
    local_user: Seq<char>,
    status: RoomStatus,
    events: Seq<RoomEventV>,
    k: int,
)
    requires
        0 <= k <= events.len(),
    ensures
        delivered(local_user, status, events) == delivered(local_user, status, events.take(k))
            + delivered(local_user, status, events.skip(k)),
    decreases k,
{
    if k == 0 {
        assert(events.take(0) =~= Seq::<RoomEventV>::empty());
        assert(events.skip(0) =~= events);
        assert(delivered(local_user, status, events.take(0)) + delivered(
            local_user,
            status,
            events,
        ) =~= delivered(local_user, status, events));
    } else {
        lemma_delivered_split(local_user, status, events.skip(1), k - 1);
        assert(events.take(k)[0] == events[0]);
        assert(events.take(k).skip(1) =~= events.skip(1).take(k - 1));
        assert(events.skip(k) =~= events.skip(1).skip(k - 1));
        let h = if bridge_accepts(local_user, status, events[0]) {
            seq![delivered_pair(events[0])]
        } else {
            Seq::<(Seq<char>, Seq<char>)>::empty()
        };
        assert(h + (delivered(local_user, status, events.skip(1).take(k - 1)) + delivered(
            local_user,
            status,
            events.skip(1).skip(k - 1),
        )) =~= (h + delivered(local_user, status, events.skip(1).take(k - 1))) + delivered(
            local_user,
            status,
            events.skip(1).skip(k - 1),
        ));
    }
}

/// Model of a batch of room events.
pub open spec fn events_view(events: Seq<RoomEvent>) -> Seq<RoomEventV> {
    events.map_values(|e: RoomEvent| e@)
}

/// Model of a batch of scrollback entries: their sender/body pairs.
pub open spec fn messages_pairs(msgs: Seq<UiMessage>) -> Seq<(Seq<char>, Seq<char>)> {
    msgs.map_values(|m: UiMessage| (m.sender@, m.contents@))
}

/// Convert the events of one sync response, in order. The entries made are
/// exactly the accepted events' sender/body pairs, in server order: none
/// lost, none reordered, none duplicated.
pub fn process_room_events(events: &Vec<RoomEvent>, status: RoomStatus, local_user: &String) -> (out:
    Vec<UiMessage>)
    ensures
        messages_pairs(out@) == delivered(local_user@, status, events_view(events@)),
{
    let mut out: Vec<UiMessage> = Vec::new();
    let n = events.len();
    let mut i: usize = 0;
    proof {
        assert(messages_pairs(out@) =~= delivered(
            local_user@,
            status,
            events_view(events@.take(0)),
        ));
    }
    while i < n
        invariant
            n == events@.len(),
            0 <= i <= n,
            messages_pairs(out@) == delivered(local_user@, status, events_view(events@.take(
                i as int,
            ))),
        decreases n - i,
    {
        let ghost out0 = out@;
        match on_room_message(&events[i], status, local_user) {
            Some(m) => {
                out.push(m);
            },
            None => {},
        }
        proof {
            lemma_delivered_push(local_user@, status, events_view(events@.take(i as int)), events@[
            i as int]@);
            assert(events_view(events@.take(i + 1)) =~= events_view(events@.take(i as int)).push(
                events@[i as int]@,
            ));
            assert(messages_pairs(out@) =~= delivered(
                local_user@,
                status,
                events_view(events@.take(i + 1)),
            ));
        }
        i = i + 1;
    }
    proof {
        assert(events@.take(n as int) =~= events@);
    }
    out
}

/// Order preservation: two events the homeserver delivered in one response
/// in a given order, both accepted by the bridge, appear in the scrollback
/// in that same order.
pub proof fn lemma_order_preservation(
    local_user: Seq<char>,
    status: RoomStatus,
    events: Seq<RoomEventV>,
    i: int,
    j: int,
)
    requires
        0 <= i < j < events.len(),
        bridge_accepts(local_user, status, events[i]),
        bridge_accepts(local_user, status, events[j]),
    ensures
        ({
            let out = delivered(local_user, status, events);
            exists|i2: int, j2: int|
                {
                    &&& 0 <= i2 < j2 < out.len()
                    &&& out[i2] == delivered_pair(events[i])
                    &&& out[j2] == delivered_pair(events[j])
                }
        }),
{
    let out = delivered(local_user, status, events);
    let i2 = delivered(local_user, status, events.take(i)).len() as int;
    let j2 = delivered(local_user, status, events.take(j)).len() as int;
    lemma_delivered_split(local_user, status, events, i);
    assert(events.skip(i)[0] == events[i]);
    assert(out[i2] == delivered_pair(events[i]));
    lemma_delivered_split(local_user, status, events, j);
    assert(events.skip(j)[0] == events[j]);
    assert(out[j2] == delivered_pair(events[j]));
    lemma_delivered_split(local_user, status, events.take(j), i);
    assert(events.take(j).take(i) =~= events.take(i));
    assert(events.take(j).skip(i)[0] == events[i]);
    assert(delivered(local_user, status, events.take(j).skip(i)).len() >= 1);
    assert(i2 < j2);
    assert(j2 < out.len()) by {
        assert(delivered(local_user, status, events.skip(j)).len() >= 1);
    }
    assert(exists|a: int, b: int|
        {
            &&& 0 <= a < b < out.len()
            &&& out[a] == delivered_pair(events[i])
            &&& out[b] == delivered_pair(events[j])
        }) by {
        assert({
            &&& 0 <= i2 < j2 < out.len()
            &&& out[i2] == delivered_pair(events[i])
            &&& out[j2] == delivered_pair(events[j])
        });
    }
}

} // verus!
