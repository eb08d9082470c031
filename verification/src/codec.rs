//! The signaling codec: the JSON text of each server and client
//! message, and the parser for incoming client frames.
//!
//! Every frame is a compact JSON object with a `"type"` field.  The
//! encoder's output is pinned character by character by the spec
//! functions here; the parser is the exact executable image of the
//! recursive specification `spec_parse_client`.

use vstd::prelude::*;

use crate::errors::SfuError;
use crate::messages::{
    ClientMessage, ClientMessageView, ParticipantInfo, ParticipantInfoView, ServerMessage,
    ServerMessageView,
};
use crate::text::{spec_dec, append_dec};

verus! {

/// The lower-case hexadecimal digit for a value in `0..=15`.
pub open spec fn hex_digit(d: int) -> char {
    if d == 0 {
        '0'
    } else if d == 1 {
        '1'
    } else if d == 2 {
        '2'
    } else if d == 3 {
        '3'
    } else if d == 4 {
        '4'
    } else if d == 5 {
        '5'
    } else if d == 6 {
        '6'
    } else if d == 7 {
        '7'
    } else if d == 8 {
        '8'
    } else if d == 9 {
        '9'
    } else if d == 10 {
        'a'
    } else if d == 11 {
        'b'
    } else if d == 12 {
        'c'
    } else if d == 13 {
        'd'
    } else if d == 14 {
        'e'
    } else {
        'f'
    }
}

/// How one character is written inside a JSON string: quotes and
/// backslashes escaped, the named control characters short-escaped,
/// other control characters as `\u00..`, everything else as itself.
pub open spec fn esc_char(c: char) -> Seq<char> {
    if c == '"' {
        seq!['\\', '"']
    } else if c == '\\' {
        seq!['\\', '\\']
    } else if c == '\n' {
        seq!['\\', 'n']
    } else if c == '\r' {
        seq!['\\', 'r']
    } else if c == '\t' {
        seq!['\\', 't']
    } else if (c as u32) < 32 {
        seq!['\\', 'u', '0', '0', hex_digit((c as u32 / 16) as int), hex_digit((c as u32 % 16) as int)]
    } else {
        seq![c]
    }
}

/// A whole string escaped.
pub open spec fn json_escape(s: Seq<char>) -> Seq<char>
    decreases s.len(),
{
    if s.len() == 0 {
        Seq::empty()
    } else {
        json_escape(s.drop_last()) + esc_char(s.last())
    }
}

/// A JSON string: the escaped content in quotes.
pub open spec fn json_str(s: Seq<char>) -> Seq<char> {
    seq!['"'] + json_escape(s) + seq!['"']
}

/// A JSON boolean.
pub open spec fn json_bool(b: bool) -> Seq<char> {
    if b {
        "true"@
    } else {
        "false"@
    }
}

/// A roster entry as JSON.
pub open spec fn json_participant(p: ParticipantInfoView) -> Seq<char> {
    "{\"id\":"@ + json_str(p.id) + ",\"name\":"@ + json_str(p.name) + ",\"muted\":"@ + json_bool(
        p.muted,
    ) + ",\"video_on\":"@ + json_bool(p.video_on) + ",\"screen_sharing\":"@ + json_bool(
        p.screen_sharing,
    ) + "}"@
}

/// A roster as a JSON array.
pub open spec fn json_participants(ps: Seq<ParticipantInfoView>) -> Seq<char>
    decreases ps.len(),
{
    if ps.len() == 0 {
        Seq::empty()
    } else if ps.len() == 1 {
        json_participant(ps[0])
    } else {
        json_participants(ps.drop_last()) + ","@ + json_participant(ps.last())
    }
}

/// The JSON text of a server message.
pub open spec fn server_json(m: ServerMessageView) -> Seq<char> {
    match m {
        ServerMessageView::Joined { your_id, participants } => "{\"type\":\"joined\",\"your_id\":"@
            + json_str(your_id) + ",\"participants\":["@ + json_participants(participants) + "]}"@,
        ServerMessageView::Answer { sdp } => "{\"type\":\"answer\",\"sdp\":"@ + json_str(sdp) + "}"@,
        ServerMessageView::Offer { sdp } => "{\"type\":\"offer\",\"sdp\":"@ + json_str(sdp) + "}"@,
        ServerMessageView::Candidate { candidate } => "{\"type\":\"candidate\",\"candidate\":"@
            + json_str(candidate) + "}"@,
        ServerMessageView::ParticipantJoined { id, name } => "{\"type\":\"participant_joined\",\"id\":"@
            + json_str(id) + ",\"name\":"@ + json_str(name) + "}"@,
        ServerMessageView::ParticipantLeft { participant_id } => "{\"type\":\"participant_left\",\"participant_id\":"@
            + json_str(participant_id) + "}"@,
        ServerMessageView::StateUpdate { participant_id, muted, video_on, screen_sharing } => "{\"type\":\"state_update\",\"participant_id\":"@
            + json_str(participant_id) + ",\"muted\":"@ + json_bool(muted) + ",\"video_on\":"@
            + json_bool(video_on) + ",\"screen_sharing\":"@ + json_bool(screen_sharing) + "}"@,
        ServerMessageView::Participants { participants } => "{\"type\":\"participants\",\"participants\":["@
            + json_participants(participants) + "]}"@,
        ServerMessageView::ScreenShareStarted { participant_id } => "{\"type\":\"screen_share_started\",\"participant_id\":"@
            + json_str(participant_id) + "}"@,
        ServerMessageView::ScreenShareStopped { participant_id } => "{\"type\":\"screen_share_stopped\",\"participant_id\":"@
            + json_str(participant_id) + "}"@,
        ServerMessageView::Pong => "{\"type\":\"pong\"}"@,
        ServerMessageView::Error { message, code } => "{\"type\":\"error\",\"message\":"@ + json_str(
            message,
        ) + ",\"code\":"@ + (match code {
            Some(c) => spec_dec(c as int),
            None => "null"@,
        }) + "}"@,
        ServerMessageView::IceGatheringComplete => "{\"type\":\"ice_gathering_complete\"}"@,
    }
}

/// The JSON text of a client message.
pub open spec fn client_json(m: ClientMessageView) -> Seq<char> {
    match m {
        ClientMessageView::Join { room, participant, name } => "{\"type\":\"join\",\"room\":"@
            + json_str(room) + ",\"participant\":"@ + json_str(participant) + ",\"name\":"@
            + json_str(name) + "}"@,
        ClientMessageView::Offer { sdp } => "{\"type\":\"offer\",\"sdp\":"@ + json_str(sdp) + "}"@,
        ClientMessageView::Answer { sdp } => "{\"type\":\"answer\",\"sdp\":"@ + json_str(sdp) + "}"@,
        ClientMessageView::Candidate { candidate } => "{\"type\":\"candidate\",\"candidate\":"@
            + json_str(candidate) + "}"@,
        ClientMessageView::StateUpdate { muted, video_on, screen_sharing } => "{\"type\":\"state_update\",\"muted\":"@
            + json_bool(muted) + ",\"video_on\":"@ + json_bool(video_on) + ",\"screen_sharing\":"@
            + json_bool(screen_sharing) + "}"@,
        ClientMessageView::StartScreenShare => "{\"type\":\"start_screen_share\"}"@,
        ClientMessageView::StopScreenShare => "{\"type\":\"stop_screen_share\"}"@,
        ClientMessageView::Ping => "{\"type\":\"ping\"}"@,
        ClientMessageView::GetParticipants => "{\"type\":\"get_participants\"}"@,
    }
}

fn hex_char(d: u32) -> (c: char)
    requires
        d < 16,
    ensures
        c == hex_digit(d as int),
{
    if d == 0 {
        '0'
    } else if d == 1 {
        '1'
    } else if d == 2 {
        '2'
    } else if d == 3 {
        '3'
    } else if d == 4 {
        '4'
    } else if d == 5 {
        '5'
    } else if d == 6 {
        '6'
    } else if d == 7 {
        '7'
    } else if d == 8 {
        '8'
    } else if d == 9 {
        '9'
    } else if d == 10 {
        'a'
    } else if d == 11 {
        'b'
    } else if d == 12 {
        'c'
    } else if d == 13 {
        'd'
    } else if d == 14 {
        'e'
    } else {
        'f'
    }
}

/// Appends the escaped form of `s` to `out`.
fn append_escaped(out: &mut String, s: &str)
    ensures
        final(out)@ == old(out)@ + json_escape(s@),
{
    let n = s.unicode_len();
    let mut i: usize = 0;
    while i < n
        invariant
            i <= n,
            n == s@.len(),
            out@ == old(out)@ + json_escape(s@.take(i as int)),
        decreases n - i,
    {
        proof {
            assert(s@.take(i + 1).drop_last() =~= s@.take(i as int));
            assert(s@.take(i + 1).last() == s@[i as int]);
        }
        let c = s.get_char(i);
        if c == '"' {
            out.push('\\');
            out.push('"');
        } else if c == '\\' {
            out.push('\\');
            out.push('\\');
        } else if c == '\n' {
            out.push('\\');
            out.push('n');
        } else if c == '\r' {
            out.push('\\');
            out.push('r');
        } else if c == '\t' {
            out.push('\\');
            out.push('t');
        } else if (c as u32) < 32 {
            let code = c as u32;
            out.push('\\');
            out.push('u');
            out.push('0');
            out.push('0');
            out.push(hex_char(code / 16));
            out.push(hex_char(code % 16));
        } else {
            out.push(c);
        }
        proof {
            assert(out@ =~= old(out)@ + json_escape(s@.take(i + 1)));
        }
        i = i + 1;
    }
    proof {
        assert(s@.take(n as int) =~= s@);
    }
}

/// Appends `s` as a JSON string, quotes and escaping included.
fn append_json_str(out: &mut String, s: &str)
    ensures
        final(out)@ == old(out)@ + json_str(s@),
{
    out.push('"');
    append_escaped(out, s);
    out.push('"');
    proof {
        assert(out@ =~= old(out)@ + json_str(s@));
    }
}

/// Appends a JSON boolean.
fn append_json_bool(out: &mut String, b: bool)
    ensures
        final(out)@ == old(out)@ + json_bool(b),
{
    if b {
        out.append("true");
    } else {
        out.append("false");
    }
}

/// Appends a roster entry as JSON.
#[verifier::rlimit(50)]
fn append_participant(out: &mut String, p: &ParticipantInfo)
    ensures
        final(out)@ == old(out)@ + json_participant(p@),
{
    out.append("{\"id\":");
    append_json_str(out, p.id.as_str());
    out.append(",\"name\":");
    append_json_str(out, p.name.as_str());
    out.append(",\"muted\":");
    append_json_bool(out, p.muted);
    out.append(",\"video_on\":");
    append_json_bool(out, p.video_on);
    out.append(",\"screen_sharing\":");
    append_json_bool(out, p.screen_sharing);
    out.append("}");
    proof {
        assert(out@ =~= old(out)@ + json_participant(p@));
    }
}

/// Appends a roster as a JSON array body.
fn append_participants(out: &mut String, ps: &Vec<ParticipantInfo>)
    ensures
        final(out)@ == old(out)@ + json_participants(ps@.map_values(|p: ParticipantInfo| p@)),
{
    let ghost view = ps@.map_values(|p: ParticipantInfo| p@);
    let mut i: usize = 0;
    while i < ps.len()
        invariant
            i <= ps.len(),
            view == ps@.map_values(|p: ParticipantInfo| p@),
            out@ == old(out)@ + json_participants(view.take(i as int)),
        decreases ps.len() - i,
    {
        proof {
            assert(view.take(i + 1).drop_last() =~= view.take(i as int));
            assert(view.take(i + 1).last() == view[i as int]);
        }
        if i > 0 {
            out.append(",");
        }
        append_participant(out, &ps[i]);
        proof {
            if i == 0 {
                assert(view.take(1) =~= seq![view[0]]);
                assert(json_participants(view.take(1)) == json_participant(view[0]));
                assert(out@ =~= old(out)@ + json_participants(view.take(i + 1)));
            } else {
                assert(out@ =~= old(out)@ + json_participants(view.take(i + 1)));
            }
        }
        i = i + 1;
    }
    proof {
        assert(view.take(ps@.len() as int) =~= view);
    }
}

/// The JSON frame for a server message, exactly as `server_json`
/// spells it.
pub fn encode_server_message(m: &ServerMessage) -> (r: String)
    ensures
        r@ == server_json(m@),
{
    let mut out = String::new();
    match m {
        ServerMessage::Joined { your_id, participants } => {
            out.append("{\"type\":\"joined\",\"your_id\":");
            append_json_str(&mut out, your_id.as_str());
            out.append(",\"participants\":[");
            append_participants(&mut out, participants);
            out.append("]}");
        },
        ServerMessage::Answer { sdp } => {
            out.append("{\"type\":\"answer\",\"sdp\":");
            append_json_str(&mut out, sdp.as_str());
            out.append("}");
        },
        ServerMessage::Offer { sdp } => {
            out.append("{\"type\":\"offer\",\"sdp\":");
            append_json_str(&mut out, sdp.as_str());
            out.append("}");
        },
        ServerMessage::Candidate { candidate } => {
            out.append("{\"type\":\"candidate\",\"candidate\":");
            append_json_str(&mut out, candidate.as_str());
            out.append("}");
        },
        ServerMessage::ParticipantJoined { id, name } => {
            out.append("{\"type\":\"participant_joined\",\"id\":");
            append_json_str(&mut out, id.as_str());
            out.append(",\"name\":");
            append_json_str(&mut out, name.as_str());
            out.append("}");
        },
        ServerMessage::ParticipantLeft { participant_id } => {
            out.append("{\"type\":\"participant_left\",\"participant_id\":");
            append_json_str(&mut out, participant_id.as_str());
            out.append("}");
        },
        ServerMessage::StateUpdate { participant_id, muted, video_on, screen_sharing } => {
            out.append("{\"type\":\"state_update\",\"participant_id\":");
            append_json_str(&mut out, participant_id.as_str());
            out.append(",\"muted\":");
            append_json_bool(&mut out, *muted);
            out.append(",\"video_on\":");
            append_json_bool(&mut out, *video_on);
            out.append(",\"screen_sharing\":");
            append_json_bool(&mut out, *screen_sharing);
            out.append("}");
        },
        ServerMessage::Participants { participants } => {
            out.append("{\"type\":\"participants\",\"participants\":[");
            append_participants(&mut out, participants);
            out.append("]}");
        },
        ServerMessage::ScreenShareStarted { participant_id } => {
            out.append("{\"type\":\"screen_share_started\",\"participant_id\":");
            append_json_str(&mut out, participant_id.as_str());
            out.append("}");
        },
        ServerMessage::ScreenShareStopped { participant_id } => {
            out.append("{\"type\":\"screen_share_stopped\",\"participant_id\":");
            append_json_str(&mut out, participant_id.as_str());
            out.append("}");
        },
        ServerMessage::Pong => {
            out.append("{\"type\":\"pong\"}");
        },
        ServerMessage::Error { message, code } => {
            out.append("{\"type\":\"error\",\"message\":");
            append_json_str(&mut out, message.as_str());
            out.append(",\"code\":");
            match code {
                Some(c) => {
                    append_dec(&mut out, *c as u64);
                },
                None => {
                    out.append("null");
                },
            }
            out.append("}");
        },
        ServerMessage::IceGatheringComplete => {
            out.append("{\"type\":\"ice_gathering_complete\"}");
        },
    }
    proof {
        assert(out@ =~= server_json(m@));
    }
    out
}

/// The JSON frame for a client message, exactly as `client_json`
/// spells it.
pub fn encode_client_message(m: &ClientMessage) -> (r: String)
    ensures
        r@ == client_json(m@),
{
    let mut out = String::new();
    match m {
        ClientMessage::Join { room, participant, name } => {
            out.append("{\"type\":\"join\",\"room\":");
            append_json_str(&mut out, room.as_str());
            out.append(",\"participant\":");
            append_json_str(&mut out, participant.as_str());
            out.append(",\"name\":");
            append_json_str(&mut out, name.as_str());
            out.append("}");
        },
        ClientMessage::Offer { sdp } => {
            out.append("{\"type\":\"offer\",\"sdp\":");
            append_json_str(&mut out, sdp.as_str());
            out.append("}");
        },
        ClientMessage::Answer { sdp } => {
            out.append("{\"type\":\"answer\",\"sdp\":");
            append_json_str(&mut out, sdp.as_str());
            out.append("}");
        },
        ClientMessage::Candidate { candidate } => {
            out.append("{\"type\":\"candidate\",\"candidate\":");
            append_json_str(&mut out, candidate.as_str());
            out.append("}");
        },
        ClientMessage::StateUpdate { muted, video_on, screen_sharing } => {
            out.append("{\"type\":\"state_update\",\"muted\":");
            append_json_bool(&mut out, *muted);
            out.append(",\"video_on\":");
            append_json_bool(&mut out, *video_on);
            out.append(",\"screen_sharing\":");
            append_json_bool(&mut out, *screen_sharing);
            out.append("}");
        },
        ClientMessage::StartScreenShare => {
            out.append("{\"type\":\"start_screen_share\"}");
        },
        ClientMessage::StopScreenShare => {
            out.append("{\"type\":\"stop_screen_share\"}");
        },
        ClientMessage::Ping => {
            out.append("{\"type\":\"ping\"}");
        },
        ClientMessage::GetParticipants => {
            out.append("{\"type\":\"get_participants\"}");
        },
    }
    proof {
        assert(out@ =~= client_json(m@));
    }
    out
}

/// The value of one JSON field of a signaling frame: every field of
/// the client protocol is a string or a boolean.
#[derive(Debug, PartialEq, Eq)]
pub enum JsonVal {
    S(String),
    B(bool),
}

/// The mathematical value of a field value.
pub enum JsonValView {
    S(Seq<char>),
    B(bool),
}

impl View for JsonVal {
    type V = JsonValView;

    open spec fn view(&self) -> JsonValView {
        match self {
            JsonVal::S(s) => JsonValView::S(s@),
            JsonVal::B(b) => JsonValView::B(*b),
        }
    }
}

/// One parsed field: its name and its value.
#[derive(Debug, PartialEq, Eq)]
pub struct Field {
    pub name: String,
    pub value: JsonVal,
}

/// The mathematical value of a parsed field.
pub struct FieldView {
    pub name: Seq<char>,
    pub value: JsonValView,
}

impl View for Field {
    type V = FieldView;

    open spec fn view(&self) -> FieldView {
        FieldView { name: self.name@, value: self.value@ }
    }
}

/// The numeric value of a hexadecimal digit character, if it is one.
pub open spec fn hex_val(c: char) -> Option<int> {
    if c == '0' {
        Some(0int)
    } else if c == '1' {
        Some(1int)
    } else if c == '2' {
        Some(2int)
    } else if c == '3' {
        Some(3int)
    } else if c == '4' {
        Some(4int)
    } else if c == '5' {
        Some(5int)
    } else if c == '6' {
        Some(6int)
    } else if c == '7' {
        Some(7int)
    } else if c == '8' {
        Some(8int)
    } else if c == '9' {
        Some(9int)
    } else if c == 'a' || c == 'A' {
        Some(10int)
    } else if c == 'b' || c == 'B' {
        Some(11int)
    } else if c == 'c' || c == 'C' {
        Some(12int)
    } else if c == 'd' || c == 'D' {
        Some(13int)
    } else if c == 'e' || c == 'E' {
        Some(14int)
    } else if c == 'f' || c == 'F' {
        Some(15int)
    } else {
        None
    }
}

/// Parses the body of a JSON string from position `i` (just past the
/// opening quote), unescaping as it goes; yields the content and the
/// position just past the closing quote.  Raw control characters,
/// bad escapes and `\u` escapes outside the ASCII range are refused.
pub open spec fn spec_parse_string(s: Seq<char>, i: int, acc: Seq<char>) -> Option<(Seq<char>, int)>
    decreases s.len() - i,
{
    if i < 0 || i >= s.len() {
        None
    } else if s[i] == '"' {
        Some((acc, i + 1))
    } else if s[i] == '\\' {
        if i + 1 >= s.len() {
            None
        } else {
            let e = s[i + 1];
            if e == '"' {
                spec_parse_string(s, i + 2, acc.push('"'))
            } else if e == '\\' {
                spec_parse_string(s, i + 2, acc.push('\\'))
            } else if e == '/' {
                spec_parse_string(s, i + 2, acc.push('/'))
            } else if e == 'n' {
                spec_parse_string(s, i + 2, acc.push('\n'))
            } else if e == 'r' {
                spec_parse_string(s, i + 2, acc.push('\r'))
            } else if e == 't' {
                spec_parse_string(s, i + 2, acc.push('\t'))
            } else if e == 'b' {
                spec_parse_string(s, i + 2, acc.push('\u{0008}'))
            } else if e == 'f' {
                spec_parse_string(s, i + 2, acc.push('\u{000C}'))
            } else if e == 'u' {
                if i + 5 >= s.len() {
                    None
                } else {
                    match (hex_val(s[i + 2]), hex_val(s[i + 3]), hex_val(s[i + 4]), hex_val(s[i + 5])) {
                        (Some(h1), Some(h2), Some(h3), Some(h4)) => {
                            let v = h1 * 4096 + h2 * 256 + h3 * 16 + h4;
                            if v < 128 {
                                spec_parse_string(s, i + 6, acc.push(((v as u8) as char)))
                            } else {
                                None
                            }
                        },
                        _ => None,
                    }
                }
            } else {
                None
            }
        }
    } else if (s[i] as u32) < 32 {
        None
    } else {
        spec_parse_string(s, i + 1, acc.push(s[i]))
    }
}

/// Parses one field value at position `i`: a string or a boolean.
pub open spec fn spec_parse_value(s: Seq<char>, i: int) -> Option<(JsonValView, int)> {
    if i < 0 || i >= s.len() {
        None
    } else if s[i] == '"' {
        match spec_parse_string(s, i + 1, Seq::empty()) {
            Some((t, j)) => Some((JsonValView::S(t), j)),
            None => None,
        }
    } else if i + 4 <= s.len() && s.subrange(i, i + 4) == "true"@ {
        Some((JsonValView::B(true), i + 4))
    } else if i + 5 <= s.len() && s.subrange(i, i + 5) == "false"@ {
        Some((JsonValView::B(false), i + 5))
    } else {
        None
    }
}

/// Parses the members of the object from position `i` (at the start
/// of a key) to the closing brace, which must end the input.
pub open spec fn spec_parse_members(s: Seq<char>, i: int, acc: Seq<FieldView>, fuel: nat) -> Option<(Seq<FieldView>, int)>
    decreases fuel,
{
    if fuel == 0 {
        None
    } else if i < 0 || i >= s.len() || s[i] != '"' {
        None
    } else {
        match spec_parse_string(s, i + 1, Seq::empty()) {
            None => None,
            Some((key, j)) => if j >= s.len() || s[j] != ':' {
                None
            } else {
                match spec_parse_value(s, j + 1) {
                    None => None,
                    Some((v, k)) => {
                        let acc2 = acc.push(FieldView { name: key, value: v });
                        if k < s.len() && s[k] == ',' {
                            spec_parse_members(s, k + 1, acc2, (fuel - 1) as nat)
                        } else if k + 1 == s.len() && s[k] == '}' {
                            Some((acc2, k + 1))
                        } else {
                            None
                        }
                    },
                }
            },
        }
    }
}

/// Parses a whole frame as one compact JSON object.
pub open spec fn spec_parse_object(s: Seq<char>) -> Option<Seq<FieldView>> {
    if s.len() >= 2 && s[0] == '{' {
        if s.len() == 2 && s[1] == '}' {
            Some(Seq::empty())
        } else {
            match spec_parse_members(s, 1, Seq::empty(), s.len()) {
                Some((ms, _)) => Some(ms),
                None => None,
            }
        }
    } else {
        None
    }
}

/// The first field with the name, from position `i` on.
pub open spec fn field_from(ms: Seq<FieldView>, key: Seq<char>, i: int) -> Option<JsonValView>
    decreases ms.len() - i,
{
    if i < 0 || i >= ms.len() {
        None
    } else if ms[i].name == key {
        Some(ms[i].value)
    } else {
        field_from(ms, key, i + 1)
    }
}

/// The string value of the field, if present with that type.
pub open spec fn get_str(ms: Seq<FieldView>, key: Seq<char>) -> Option<Seq<char>> {
    match field_from(ms, key, 0) {
        Some(JsonValView::S(s)) => Some(s),
        _ => None,
    }
}

/// The boolean value of the field, if present with that type.
pub open spec fn get_bool(ms: Seq<FieldView>, key: Seq<char>) -> Option<bool> {
    match field_from(ms, key, 0) {
        Some(JsonValView::B(b)) => Some(b),
        _ => None,
    }
}

/// Which client message a frame is: the object's `"type"` field
/// picks the variant and the variant's fields must be present with
/// the right types; unknown extra fields are ignored.
pub open spec fn spec_parse_client(s: Seq<char>) -> Option<ClientMessageView> {
    match spec_parse_object(s) {
        None => None,
        Some(ms) => match get_str(ms, "type"@) {
            None => None,
            Some(t) => if t == "join"@ {
                match (get_str(ms, "room"@), get_str(ms, "participant"@), get_str(ms, "name"@)) {
                    (Some(room), Some(participant), Some(name)) => Some(ClientMessageView::Join {
                        room,
                        participant,
                        name,
                    }),
                    _ => None,
                }
            } else if t == "offer"@ {
                match get_str(ms, "sdp"@) {
                    Some(sdp) => Some(ClientMessageView::Offer { sdp }),
                    None => None,
                }
            } else if t == "answer"@ {
                match get_str(ms, "sdp"@) {
                    Some(sdp) => Some(ClientMessageView::Answer { sdp }),
                    None => None,
                }
            } else if t == "candidate"@ {
                match get_str(ms, "candidate"@) {
                    Some(candidate) => Some(ClientMessageView::Candidate { candidate }),
                    None => None,
                }
            } else if t == "state_update"@ {
                match (get_bool(ms, "muted"@), get_bool(ms, "video_on"@), get_bool(ms, "screen_sharing"@)) {
                    (Some(muted), Some(video_on), Some(screen_sharing)) => Some(
                        ClientMessageView::StateUpdate { muted, video_on, screen_sharing },
                    ),
                    _ => None,
                }
            } else if t == "start_screen_share"@ {
                Some(ClientMessageView::StartScreenShare)
            } else if t == "stop_screen_share"@ {
                Some(ClientMessageView::StopScreenShare)
            } else if t == "ping"@ {
                Some(ClientMessageView::Ping)
            } else if t == "get_participants"@ {
                Some(ClientMessageView::GetParticipants)
            } else {
                None
            },
        },
    }
}

/// The escaped text of a string starts with the escape of its first
/// character.
proof fn lemma_json_escape_first(s: Seq<char>)
    requires
        s.len() > 0,
    ensures
        json_escape(s) == esc_char(s[0]) + json_escape(s.drop_first()),
    decreases s.len(),
{
    if s.len() == 1 {
        assert(s.drop_last() =~= Seq::<char>::empty());
        assert(s.drop_first() =~= Seq::<char>::empty());
        assert(s.last() == s[0]);
        assert(json_escape(s) =~= esc_char(s[0]) + json_escape(s.drop_first()));
    } else {
        let rest = s.drop_first();
        lemma_json_escape_first(s.drop_last());
        assert(s.drop_last()[0] == s[0]);
        assert(s.drop_last().drop_first() =~= rest.drop_last());
        assert(rest.last() == s.last());
        assert(json_escape(s) == json_escape(s.drop_last()) + esc_char(s.last()));
        assert(json_escape(rest) == json_escape(rest.drop_last()) + esc_char(rest.last()));
        assert(json_escape(s) =~= esc_char(s[0]) + json_escape(rest));
    }
}

/// Reading back an emitted hexadecimal digit yields its value.
proof fn lemma_hex_digit_value(d: int)
    requires
        0 <= d < 16,
    ensures
        hex_val(hex_digit(d)) == Some(d),
{
}

/// Escape round trip: wherever the escaped body of `s` stands in a
/// frame with the closing quote after it, the string parser starting
/// there reads back exactly `s` and stops just past the quote.  So
/// no string a frame carries is changed by writing and reading it.
pub proof fn lemma_escape_round_trip(full: Seq<char>, i: int, s: Seq<char>, acc: Seq<char>)
    requires
        0 <= i,
        i + json_escape(s).len() + 1 <= full.len(),
        full.subrange(i, i + json_escape(s).len() + 1) == json_escape(s) + seq!['"'],
    ensures
        spec_parse_string(full, i, acc) == Some((acc + s, i + json_escape(s).len() + 1)),
    decreases s.len(),
{
    let whole = json_escape(s) + seq!['"'];
    let big = i + json_escape(s).len() + 1;
    assert forall|t: int| 0 <= t < whole.len() implies full[i + t] == #[trigger] whole[t] by {
        assert(full.subrange(i, big)[t] == full[i + t]);
    }
    if s.len() == 0 {
        assert(json_escape(s).len() == 0);
        assert(whole[0] == '"');
        assert(full[i] == '"');
        assert(acc + s =~= acc);
    } else {
        let c = s[0];
        let rest = s.drop_first();
        lemma_json_escape_first(s);
        let e = esc_char(c);
        let k = e.len();
        assert(json_escape(s) == e + json_escape(rest));
        assert forall|t: int| 0 <= t < k implies full[i + t] == #[trigger] e[t] by {
            assert(whole[t] == e[t]);
        }
        let tail = json_escape(rest) + seq!['"'];
        let sub = i + k;
        assert forall|t: int| 0 <= t < tail.len() implies full[sub + t] == #[trigger] tail[t] by {
            assert(whole[k + t] == tail[t]);
        }
        assert(full.subrange(sub, sub + json_escape(rest).len() + 1) =~= tail);
        let acc2 = acc.push(c);
        assert(acc2 + rest =~= acc + s);
        if c == '"' {
            assert(e[0] == '\\' && e[1] == '"');
            assert(full[i] == '\\' && full[i + 1] == '"');
            lemma_escape_round_trip(full, i + 2, rest, acc2);
        } else if c == '\\' {
            assert(e[0] == '\\' && e[1] == '\\');
            assert(full[i] == '\\' && full[i + 1] == '\\');
            lemma_escape_round_trip(full, i + 2, rest, acc2);
        } else if c == '\n' {
            assert(e[0] == '\\' && e[1] == 'n');
            assert(full[i] == '\\' && full[i + 1] == 'n');
            lemma_escape_round_trip(full, i + 2, rest, acc2);
        } else if c == '\r' {
            assert(e[0] == '\\' && e[1] == 'r');
            assert(full[i] == '\\' && full[i + 1] == 'r');
            lemma_escape_round_trip(full, i + 2, rest, acc2);
        } else if c == '\t' {
            assert(e[0] == '\\' && e[1] == 't');
            assert(full[i] == '\\' && full[i + 1] == 't');
            lemma_escape_round_trip(full, i + 2, rest, acc2);
        } else if (c as u32) < 32 {
            let cu = c as u32;
            vstd::utf8::char_u32_cast(c, cu);
            let h1 = (cu / 16) as int;
            let h2 = (cu % 16) as int;
            assert(e[0] == '\\' && e[1] == 'u' && e[2] == '0' && e[3] == '0');
            assert(e[4] == hex_digit(h1) && e[5] == hex_digit(h2));
            assert(full[i] == '\\' && full[i + 1] == 'u' && full[i + 2] == '0' && full[i + 3] == '0');
            assert(full[i + 4] == hex_digit(h1) && full[i + 5] == hex_digit(h2));
            lemma_hex_digit_value(h1);
            lemma_hex_digit_value(h2);
            assert(hex_val(full[i + 2]) == Some(0int));
            assert(hex_val(full[i + 3]) == Some(0int));
            let v = 0 * 4096 + 0 * 256 + h1 * 16 + h2;
            assert(v == cu as int) by {
                vstd::arithmetic::div_mod::lemma_fundamental_div_mod(cu as int, 16);
            }
            assert(v < 128);
            assert((v as u8) as int == cu as int);
            assert(((v as u8) as char) == (cu as char));
            assert(((v as u8) as char) == c);
            lemma_escape_round_trip(full, i + 6, rest, acc2);
        } else {
            assert(e =~= seq![c]);
            assert(e[0] == c);
            assert(full[i] == c);
            lemma_escape_round_trip(full, i + 1, rest, acc2);
        }
    }
}

/// String round trip: wherever an emitted JSON string stands in a
/// frame, the value parser starting there reads back exactly the
/// string it was written from.
pub proof fn lemma_json_str_round_trip(full: Seq<char>, i: int, s: Seq<char>)
    requires
        0 <= i,
        i + json_str(s).len() <= full.len(),
        full.subrange(i, i + json_str(s).len()) == json_str(s),
    ensures
        spec_parse_value(full, i) == Some((JsonValView::S(s), i + json_str(s).len())),
{
    let n = json_str(s).len();
    assert forall|t: int| 0 <= t < n implies full[i + t] == #[trigger] json_str(s)[t] by {
        assert(full.subrange(i, i + n)[t] == full[i + t]);
    }
    assert(json_str(s)[0] == '"');
    assert(full[i] == '"');
    let body = json_escape(s) + seq!['"'];
    assert forall|t: int| 0 <= t < body.len() implies full[i + 1 + t] == #[trigger] body[t] by {
        assert(json_str(s)[1 + t] == body[t]);
    }
    assert(full.subrange(i + 1, i + 1 + json_escape(s).len() + 1) =~= body);
    lemma_escape_round_trip(full, i + 1, s, Seq::empty());
    assert(Seq::empty() + s =~= s);
}

fn hex_of(c: char) -> (r: Option<u32>)
    ensures
        match r {
            Some(v) => hex_val(c) == Some(v as int) && v < 16,
            None => hex_val(c) is None,
        },
{
    if c == '0' {
        Some(0)
    } else if c == '1' {
        Some(1)
    } else if c == '2' {
        Some(2)
    } else if c == '3' {
        Some(3)
    } else if c == '4' {
        Some(4)
    } else if c == '5' {
        Some(5)
    } else if c == '6' {
        Some(6)
    } else if c == '7' {
        Some(7)
    } else if c == '8' {
        Some(8)
    } else if c == '9' {
        Some(9)
    } else if c == 'a' || c == 'A' {
        Some(10)
    } else if c == 'b' || c == 'B' {
        Some(11)
    } else if c == 'c' || c == 'C' {
        Some(12)
    } else if c == 'd' || c == 'D' {
        Some(13)
    } else if c == 'e' || c == 'E' {
        Some(14)
    } else if c == 'f' || c == 'F' {
        Some(15)
    } else {
        None
    }
}

/// The executable image of `spec_parse_string`.
fn parse_string_at(s: &str, i: usize, acc: String) -> (r: Option<(String, usize)>)
    ensures
        match r {
            Some(t) => spec_parse_string(s@, i as int, acc@) == Some((t.0@, t.1 as int))
                && t.1 <= s@.len(),
            None => spec_parse_string(s@, i as int, acc@) is None,
        },
    decreases s@.len() - i,
{
    let n = s.unicode_len();
    if i >= n {
        return None;
    }
    let c = s.get_char(i);
    if c == '"' {
        Some((acc, i + 1))
    } else if c == '\\' {
        if i + 1 >= n {
            return None;
        }
        let e = s.get_char(i + 1);
        let mut acc = acc;
        if e == '"' {
            acc.push('"');
            parse_string_at(s, i + 2, acc)
        } else if e == '\\' {
            acc.push('\\');
            parse_string_at(s, i + 2, acc)
        } else if e == '/' {
            acc.push('/');
            parse_string_at(s, i + 2, acc)
        } else if e == 'n' {
            acc.push('\n');
            parse_string_at(s, i + 2, acc)
        } else if e == 'r' {
            acc.push('\r');
            parse_string_at(s, i + 2, acc)
        } else if e == 't' {
            acc.push('\t');
            parse_string_at(s, i + 2, acc)
        } else if e == 'b' {
            acc.push('\u{0008}');
            parse_string_at(s, i + 2, acc)
        } else if e == 'f' {
            acc.push('\u{000C}');
            parse_string_at(s, i + 2, acc)
        } else if e == 'u' {
            if n - i <= 5 {
                return None;
            }
            let h1 = hex_of(s.get_char(i + 2));
            let h2 = hex_of(s.get_char(i + 3));
            let h3 = hex_of(s.get_char(i + 4));
            let h4 = hex_of(s.get_char(i + 5));
            match (h1, h2, h3, h4) {
                (Some(h1), Some(h2), Some(h3), Some(h4)) => {
                    let v = h1 * 4096 + h2 * 256 + h3 * 16 + h4;
                    if v < 128 {
                        acc.push((v as u8) as char);
                        parse_string_at(s, i + 6, acc)
                    } else {
                        None
                    }
                },
                _ => None,
            }
        } else {
            None
        }
    } else if (c as u32) < 32 {
        None
    } else {
        let mut acc = acc;
        acc.push(c);
        parse_string_at(s, i + 1, acc)
    }
}

/// The executable image of `spec_parse_value`.
fn parse_value_at(s: &str, i: usize) -> (r: Option<(JsonVal, usize)>)
    ensures
        match r {
            Some(t) => spec_parse_value(s@, i as int) == Some((t.0@, t.1 as int))
                && t.1 <= s@.len(),
            None => spec_parse_value(s@, i as int) is None,
        },
{
    let n = s.unicode_len();
    if i >= n {
        return None;
    }
    let c = s.get_char(i);
    if c == '"' {
        match parse_string_at(s, i + 1, String::new()) {
            Some((t, j)) => Some((JsonVal::S(t), j)),
            None => None,
        }
    } else if n - i >= 4 && s.get_char(i) == 't' && s.get_char(i + 1) == 'r'
        && s.get_char(i + 2) == 'u' && s.get_char(i + 3) == 'e' {
        proof {
            reveal_strlit("true");
            assert(s@.subrange(i as int, i + 4) =~= "true"@);
        }
        Some((JsonVal::B(true), i + 4))
    } else if n - i >= 5 && s.get_char(i) == 'f' && s.get_char(i + 1) == 'a'
        && s.get_char(i + 2) == 'l' && s.get_char(i + 3) == 's' && s.get_char(i + 4) == 'e' {
        proof {
            reveal_strlit("true");
            reveal_strlit("false");
            if i + 4 <= s@.len() && s@.subrange(i as int, i + 4) == "true"@ {
                assert(s@.subrange(i as int, i + 4)[0] == 't');
                assert(s@[i as int] == 't');
            }
            assert(s@.subrange(i as int, i + 5) =~= "false"@);
        }
        Some((JsonVal::B(false), i + 5))
    } else {
        proof {
            reveal_strlit("true");
            reveal_strlit("false");
            if i + 4 <= s@.len() && s@.subrange(i as int, i + 4) == "true"@ {
                assert(s@.subrange(i as int, i + 4)[0] == 't');
                assert(s@.subrange(i as int, i + 4)[1] == 'r');
                assert(s@.subrange(i as int, i + 4)[2] == 'u');
                assert(s@.subrange(i as int, i + 4)[3] == 'e');
                assert(s@[i as int] == 't' && s@[i + 1] == 'r' && s@[i + 2] == 'u'
                    && s@[i + 3] == 'e');
            }
            if i + 5 <= s@.len() && s@.subrange(i as int, i + 5) == "false"@ {
                assert(s@.subrange(i as int, i + 5)[0] == 'f');
                assert(s@.subrange(i as int, i + 5)[1] == 'a');
                assert(s@.subrange(i as int, i + 5)[2] == 'l');
                assert(s@.subrange(i as int, i + 5)[3] == 's');
                assert(s@.subrange(i as int, i + 5)[4] == 'e');
                assert(s@[i as int] == 'f' && s@[i + 1] == 'a' && s@[i + 2] == 'l'
                    && s@[i + 3] == 's' && s@[i + 4] == 'e');
            }
        }
        None
    }
}

/// The executable image of `spec_parse_members`.
fn parse_members_at(s: &str, i: usize, acc: Vec<Field>, fuel: usize) -> (r: Option<(Vec<Field>, usize)>)
    ensures
        match r {
            Some(t) => spec_parse_members(s@, i as int, acc@.map_values(|f: Field| f@), fuel as nat)
                == Some((t.0@.map_values(|f: Field| f@), t.1 as int)),
            None => spec_parse_members(s@, i as int, acc@.map_values(|f: Field| f@), fuel as nat) is None,
        },
    decreases fuel,
{
    let n = s.unicode_len();
    if fuel == 0 {
        return None;
    }
    if i >= n || s.get_char(i) != '"' {
        return None;
    }
    let (key, j) = match parse_string_at(s, i + 1, String::new()) {
        Some(t) => t,
        None => {
            return None;
        },
    };
    if j >= n || s.get_char(j) != ':' {
        return None;
    }
    let (v, k) = match parse_value_at(s, j + 1) {
        Some(t) => t,
        None => {
            return None;
        },
    };
    let mut acc2 = acc;
    let ghost accv = acc2@.map_values(|f: Field| f@);
    acc2.push(Field { name: key, value: v });
    proof {
        assert(acc2@.map_values(|f: Field| f@) =~= accv.push(FieldView {
            name: spec_parse_string(s@, i + 1, Seq::empty())->Some_0.0,
            value: spec_parse_value(s@, j + 1)->Some_0.0,
        }));
    }
    if k < n && s.get_char(k) == ',' {
        parse_members_at(s, k + 1, acc2, fuel - 1)
    } else if k < n && n - k == 1 && s.get_char(k) == '}' {
        Some((acc2, k + 1))
    } else {
        None
    }
}

/// The executable image of `spec_parse_object`.
fn parse_object(s: &str) -> (r: Option<Vec<Field>>)
    ensures
        match r {
            Some(ms) => spec_parse_object(s@) == Some(ms@.map_values(|f: Field| f@)),
            None => spec_parse_object(s@) is None,
        },
{
    let n = s.unicode_len();
    if n < 2 || s.get_char(0) != '{' {
        return None;
    }
    if n == 2 && s.get_char(1) == '}' {
        let ms: Vec<Field> = Vec::new();
        proof {
            assert(ms@.map_values(|f: Field| f@) =~= Seq::<FieldView>::empty());
        }
        return Some(ms);
    }
    let acc: Vec<Field> = Vec::new();
    proof {
        assert(acc@.map_values(|f: Field| f@) =~= Seq::<FieldView>::empty());
    }
    match parse_members_at(s, 1, acc, n) {
        Some((ms, _)) => Some(ms),
        None => None,
    }
}

/// The executable image of `field_from`, handing the value out as a
/// clone.
fn field_at(ms: &Vec<Field>, key: &str, i: usize) -> (r: Option<JsonVal>)
    requires
        i <= ms@.len(),
    ensures
        match r {
            Some(v) => field_from(ms@.map_values(|f: Field| f@), key@, i as int) == Some(v@),
            None => field_from(ms@.map_values(|f: Field| f@), key@, i as int) is None,
        },
    decreases ms@.len() - i,
{
    if i == ms.len() {
        return None;
    }
    if crate::text::str_eq(ms[i].name.as_str(), key) {
        match &ms[i].value {
            JsonVal::S(t) => Some(JsonVal::S(t.clone())),
            JsonVal::B(b) => Some(JsonVal::B(*b)),
        }
    } else {
        field_at(ms, key, i + 1)
    }
}

/// The string field of that name, if present with that type.
fn str_field(ms: &Vec<Field>, key: &str) -> (r: Option<String>)
    ensures
        match r {
            Some(t) => get_str(ms@.map_values(|f: Field| f@), key@) == Some(t@),
            None => get_str(ms@.map_values(|f: Field| f@), key@) is None,
        },
{
    match field_at(ms, key, 0) {
        Some(JsonVal::S(t)) => Some(t),
        _ => None,
    }
}

/// The boolean field of that name, if present with that type.
fn bool_field(ms: &Vec<Field>, key: &str) -> (r: Option<bool>)
    ensures
        match r {
            Some(b) => get_bool(ms@.map_values(|f: Field| f@), key@) == Some(b),
            None => get_bool(ms@.map_values(|f: Field| f@), key@) is None,
        },
{
    match field_at(ms, key, 0) {
        Some(JsonVal::B(b)) => Some(b),
        _ => None,
    }
}

/// Parses one client frame.  Succeeds exactly on the frames that
/// `spec_parse_client` accepts: a compact JSON object whose `"type"`
/// names a client message and whose fields carry that message's
/// values; anything else is a protocol error, and the caller drops
/// the frame.
pub fn parse_client_message(s: &str) -> (r: Result<ClientMessage, SfuError>)
    ensures
        match r {
            Ok(m) => spec_parse_client(s@) == Some(m@),
            Err(e) => spec_parse_client(s@) is None && e == SfuError::Protocol,
        },
{
    let ms = match parse_object(s) {
        Some(ms) => ms,
        None => {
            return Err(SfuError::Protocol);
        },
    };
    let t = match str_field(&ms, "type") {
        Some(t) => t,
        None => {
            return Err(SfuError::Protocol);
        },
    };
    let t = t.as_str();
    if crate::text::str_eq(t, "join") {
        match (str_field(&ms, "room"), str_field(&ms, "participant"), str_field(&ms, "name")) {
            (Some(room), Some(participant), Some(name)) => Ok(ClientMessage::Join {
                room,
                participant,
                name,
            }),
            _ => Err(SfuError::Protocol),
        }
    } else if crate::text::str_eq(t, "offer") {
        match str_field(&ms, "sdp") {
            Some(sdp) => Ok(ClientMessage::Offer { sdp }),
            None => Err(SfuError::Protocol),
        }
    } else if crate::text::str_eq(t, "answer") {
        match str_field(&ms, "sdp") {
            Some(sdp) => Ok(ClientMessage::Answer { sdp }),
            None => Err(SfuError::Protocol),
        }
    } else if crate::text::str_eq(t, "candidate") {
        match str_field(&ms, "candidate") {
            Some(candidate) => Ok(ClientMessage::Candidate { candidate }),
            None => Err(SfuError::Protocol),
        }
    } else if crate::text::str_eq(t, "state_update") {
        match (bool_field(&ms, "muted"), bool_field(&ms, "video_on"), bool_field(&ms, "screen_sharing")) {
            (Some(muted), Some(video_on), Some(screen_sharing)) => Ok(ClientMessage::StateUpdate {
                muted,
                video_on,
                screen_sharing,
            }),
            _ => Err(SfuError::Protocol),
        }
    } else if crate::text::str_eq(t, "start_screen_share") {
        Ok(ClientMessage::StartScreenShare)
    } else if crate::text::str_eq(t, "stop_screen_share") {
        Ok(ClientMessage::StopScreenShare)
    } else if crate::text::str_eq(t, "ping") {
        Ok(ClientMessage::Ping)
    } else if crate::text::str_eq(t, "get_participants") {
        Ok(ClientMessage::GetParticipants)
    } else {
        Err(SfuError::Protocol)
    }
}

} // verus!
