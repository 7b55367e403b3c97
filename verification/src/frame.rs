//! Wire serialization towards the client: one SSE frame per event, made of an
//! `event:` line carrying the variant tag and a `data:` line carrying a JSON
//! object that mirrors the event payload with the routing `members` field
//! omitted. Also the keep-alive comment frame and the welcome frame.

use vstd::prelude::*;

use crate::event::ChatType;
use crate::event::Event;
use crate::event::EventV;
use crate::text::push_char;

verus! {

/// The decimal digit `d` as a character.
pub open spec fn spec_digit(d: nat) -> Seq<char> {
    if d == 0 {
        "0"@
    } else if d == 1 {
        "1"@
    } else if d == 2 {
        "2"@
    } else if d == 3 {
        "3"@
    } else if d == 4 {
        "4"@
    } else if d == 5 {
        "5"@
    } else if d == 6 {
        "6"@
    } else if d == 7 {
        "7"@
    } else if d == 8 {
        "8"@
    } else {
        "9"@
    }
}

/// `n` written in decimal, most significant digit first.
pub open spec fn spec_dec_u64(n: nat) -> Seq<char>
    decreases n,
{
    if n < 10 {
        spec_digit(n)
    } else {
        spec_dec_u64(n / 10) + spec_digit(n % 10)
    }
}

/// `n` written in decimal, with a leading minus sign when negative.
pub open spec fn spec_dec_i64(n: int) -> Seq<char> {
    if n < 0 {
        "-"@ + spec_dec_u64((-n) as nat)
    } else {
        spec_dec_u64(n as nat)
    }
}

fn digit_str(d: u64) -> (r: &'static str)
    requires
        d < 10,
    ensures
        r@ == spec_digit(d as nat),
{
    match d {
        0 => "0",
        1 => "1",
        2 => "2",
        3 => "3",
        4 => "4",
        5 => "5",
        6 => "6",
        7 => "7",
        8 => "8",
        _ => "9",
    }
}

/// Appends `n` in decimal to `out`.
pub fn append_u64(out: &mut String, n: u64)
    ensures
        final(out)@ == old(out)@ + spec_dec_u64(n as nat),
    decreases n,
{
    if n < 10 {
        out.append(digit_str(n));
    } else {
        append_u64(out, n / 10);
        out.append(digit_str(n % 10));
        assert(out@ =~= old(out)@ + spec_dec_u64(n as nat));
    }
}

/// Appends `n` in decimal to `out`, minus sign first when negative.
pub fn append_i64(out: &mut String, n: i64)
    ensures
        final(out)@ == old(out)@ + spec_dec_i64(n as int),
{
    if n < 0 {
        let mag: u64 = (-(n as i128)) as u64;
        assert(mag == -(n as int));
        out.append("-");
        append_u64(out, mag);
        assert(out@ =~= old(out)@ + spec_dec_i64(n as int));
    } else {
        append_u64(out, n as u64);
    }
}

/// How one character is written inside a JSON string: quote, backslash,
/// newline, carriage return and tab are escaped, everything else stands as
/// it is.
pub open spec fn spec_escape_char(c: char) -> Seq<char> {
    if c == '"' {
        "\\\""@
    } else if c == '\\' {
        "\\\\"@
    } else if c == '\n' {
        "\\n"@
    } else if c == '\r' {
        "\\r"@
    } else if c == '\t' {
        "\\t"@
    } else {
        seq![c]
    }
}

/// `s` written inside a JSON string, character by character.
pub open spec fn spec_escape(s: Seq<char>) -> Seq<char>
    decreases s.len(),
{
    if s.len() == 0 {
        Seq::empty()
    } else {
        spec_escape(s.drop_last()) + spec_escape_char(s.last())
    }
}

fn append_escaped_char(out: &mut String, c: char)
    ensures
        final(out)@ == old(out)@ + spec_escape_char(c),
{
    if c == '"' {
        out.append("\\\"");
    } else if c == '\\' {
        out.append("\\\\");
    } else if c == '\n' {
        out.append("\\n");
    } else if c == '\r' {
        out.append("\\r");
    } else if c == '\t' {
        out.append("\\t");
    } else {
        push_char(out, c);
    }
}

/// Appends `s` to `out` in JSON string escaping.
pub fn append_escaped(out: &mut String, s: &str)
    ensures
        final(out)@ == old(out)@ + spec_escape(s@),
{
    let n = s.unicode_len();
    let mut i: usize = 0;
    while i < n
        invariant
            n == s@.len(),
            i <= n,
            out@ == old(out)@ + spec_escape(s@.take(i as int)),
        decreases n - i,
    {
        let c = s.get_char(i);
        append_escaped_char(out, c);
        proof {
            assert(s@.take(i + 1).drop_last() =~= s@.take(i as int));
            assert(s@.take(i + 1).last() == s@[i as int]);
            assert(out@ =~= old(out)@ + spec_escape(s@.take(i + 1)));
        }
        i = i + 1;
    }
    proof {
        assert(s@.take(n as int) =~= s@);
    }
}

/// The tag naming an event variant on the wire.
pub open spec fn spec_event_tag(ev: EventV) -> Seq<char> {
    match ev {
        EventV::ChatUpserted { .. } => "chat_upserted"@,
        EventV::ChatDeleted { .. } => "chat_deleted"@,
        EventV::MessageCreated { .. } => "message_created"@,
    }
}

/// The label naming a chat kind on the wire.
pub open spec fn spec_kind_label(kind: ChatType) -> Seq<char> {
    match kind {
        ChatType::Single => "single"@,
        ChatType::Group => "group"@,
        ChatType::PrivateChannel => "private_channel"@,
        ChatType::PublicChannel => "public_channel"@,
    }
}

fn kind_label(kind: &ChatType) -> (r: &'static str)
    ensures
        r@ == spec_kind_label(*kind),
{
    match kind {
        ChatType::Single => "single",
        ChatType::Group => "group",
        ChatType::PrivateChannel => "private_channel",
        ChatType::PublicChannel => "public_channel",
    }
}

/// The optional `name` member of the data object: absent when the chat has no
/// name, a JSON string otherwise.
pub open spec fn spec_name_part(name: Option<Seq<char>>) -> Seq<char> {
    match name {
        None => Seq::empty(),
        Some(n) => ",\"name\":\""@ + spec_escape(n) + "\""@,
    }
}

/// The JSON object carried on the frame's `data:` line. The `members` field
/// is a routing concern and is never sent to the client.
pub open spec fn spec_data_json(ev: EventV) -> Seq<char> {
    match ev {
        EventV::ChatUpserted { chat_id, workspace_id, members: _, name, kind } => {
            "{\"type\":\"chat_upserted\",\"chat_id\":"@ + spec_dec_i64(chat_id as int)
                + ",\"workspace_id\":"@ + spec_dec_i64(workspace_id as int) + spec_name_part(name)
                + ",\"kind\":\""@ + spec_kind_label(kind) + "\"}"@
        },
        EventV::ChatDeleted { chat_id, workspace_id, members: _ } => {
            "{\"type\":\"chat_deleted\",\"chat_id\":"@ + spec_dec_i64(chat_id as int)
                + ",\"workspace_id\":"@ + spec_dec_i64(workspace_id as int) + "}"@
        },
        EventV::MessageCreated {
            message_id,
            chat_id,
            workspace_id,
            sender_id,
            members: _,
            created_at,
        } => {
            "{\"type\":\"message_created\",\"message_id\":"@ + spec_dec_i64(message_id as int)
                + ",\"chat_id\":"@ + spec_dec_i64(chat_id as int) + ",\"workspace_id\":"@
                + spec_dec_i64(workspace_id as int) + ",\"sender_id\":"@ + spec_dec_i64(
                sender_id as int,
            ) + ",\"created_at\":"@ + spec_dec_i64(created_at as int) + "}"@
        },
    }
}

/// The full SSE frame for an event: an `event:` line with the variant tag and
/// a `data:` line with the JSON object, closed by a blank line.
pub open spec fn spec_frame(ev: EventV) -> Seq<char> {
    "event: "@ + spec_event_tag(ev) + "\ndata: "@ + spec_data_json(ev) + "\n\n"@
}

/// Renders the SSE frame for `ev`.
pub fn render_frame(ev: &Event) -> (r: String)
    ensures
        r@ == spec_frame(ev@),
{
    let mut out = String::new();
    out.append("event: ");
    match ev {
        Event::ChatUpserted { .. } => out.append("chat_upserted"),
        Event::ChatDeleted { .. } => out.append("chat_deleted"),
        Event::MessageCreated { .. } => out.append("message_created"),
    }
    out.append("\ndata: ");
    match ev {
        Event::ChatUpserted { chat_id, workspace_id, members: _, name, kind } => {
            out.append("{\"type\":\"chat_upserted\",\"chat_id\":");
            append_i64(&mut out, *chat_id);
            out.append(",\"workspace_id\":");
            append_i64(&mut out, *workspace_id);
            match name {
                Some(n) => {
                    out.append(",\"name\":\"");
                    append_escaped(&mut out, n.as_str());
                    out.append("\"");
                },
                None => {},
            }
            out.append(",\"kind\":\"");
            out.append(kind_label(kind));
            out.append("\"}");
        },
        Event::ChatDeleted { chat_id, workspace_id, members: _ } => {
            out.append("{\"type\":\"chat_deleted\",\"chat_id\":");
            append_i64(&mut out, *chat_id);
            out.append(",\"workspace_id\":");
            append_i64(&mut out, *workspace_id);
            out.append("}");
        },
        Event::MessageCreated {
            message_id,
            chat_id,
            workspace_id,
            sender_id,
            members: _,
            created_at,
        } => {
            out.append("{\"type\":\"message_created\",\"message_id\":");
            append_i64(&mut out, *message_id);
            out.append(",\"chat_id\":");
            append_i64(&mut out, *chat_id);
            out.append(",\"workspace_id\":");
            append_i64(&mut out, *workspace_id);
            out.append(",\"sender_id\":");
            append_i64(&mut out, *sender_id);
            out.append(",\"created_at\":");
            append_i64(&mut out, *created_at);
            out.append("}");
        },
    }
    out.append("\n\n");
    proof {
        assert(out@ =~= spec_frame(ev@));
    }
    out
}

/// The comment frame written at the keep-alive interval, so that idle
/// intermediaries do not close the stream.
pub fn keep_alive_frame() -> (r: String)
    ensures
        r@ == ": keep-alive\n\n"@,
{
    let mut out = String::new();
    out.append(": keep-alive\n\n");
    proof {
        assert(out@ =~= ": keep-alive\n\n"@);
    }
    out
}

/// The first frame a session yields, before any event: a comment naming the
/// subscriber.
pub fn welcome_frame(subscriber_id: &str) -> (r: String)
    ensures
        r@ == ": welcome "@ + subscriber_id@ + "\n\n"@,
{
    let mut out = String::new();
    out.append(": welcome ");
    out.append(subscriber_id);
    out.append("\n\n");
    proof {
        assert(out@ =~= ": welcome "@ + subscriber_id@ + "\n\n"@);
    }
    out
}

} // verus!
