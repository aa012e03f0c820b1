//! Operator commands: their wire text, their JSON frame, and their hand-off
//! to the control writer's queue.
use vstd::prelude::*;
use vstd::string::StringExecFns;

verus! {

/// serde_json's error type, carried opaquely as the failure of an encode.
#[verifier::external_type_specification]
#[verifier::external_body]
pub struct ExJsonError(serde_json::Error);

/// tokio's producer handle of an unbounded queue, carried opaquely: commands
/// are put on it, and the control writer drains the other end.
#[verifier::external_type_specification]
#[verifier::external_body]
#[verifier::reject_recursive_types(T)]
pub struct ExUnboundedSender<T>(tokio::sync::mpsc::UnboundedSender<T>);

/// An instruction for one aircraft, with a magnitude that the simulator
/// interprets (feet for an altitude, degrees for a heading).
pub enum CommandRequest {
    SetAltitude { id: String, value: String },
    SetHeading { id: String, value: String },
}

/// The verb that opens the wire text of a command.
pub open spec fn verb_of(cmd: CommandRequest) -> Seq<char> {
    match cmd {
        CommandRequest::SetAltitude { .. } => seq!['A', 'L', 'T'],
        CommandRequest::SetHeading { .. } => seq!['H', 'D', 'G'],
    }
}

pub open spec fn target_of(cmd: CommandRequest) -> Seq<char> {
    match cmd {
        CommandRequest::SetAltitude { id, .. } => id@,
        CommandRequest::SetHeading { id, .. } => id@,
    }
}

pub open spec fn magnitude_of(cmd: CommandRequest) -> Seq<char> {
    match cmd {
        CommandRequest::SetAltitude { value, .. } => value@,
        CommandRequest::SetHeading { value, .. } => value@,
    }
}

/// `<VERB> <id> <value>`, the text that the simulator reads.
pub open spec fn command_text_of(cmd: CommandRequest) -> Seq<char> {
    verb_of(cmd) + seq![' '] + target_of(cmd) + seq![' '] + magnitude_of(cmd)
}

/// `{"command":` followed by a JSON string literal and `}`.
pub open spec fn frame_of(quoted: Seq<char>) -> Seq<char> {
    seq!['{', '"', 'c', 'o', 'm', 'm', 'a', 'n', 'd', '"', ':'] + quoted + seq!['}']
}

/// The sixteen lowercase hexadecimal digits.
pub open spec fn hex_digit(n: int) -> char {
    seq!['0', '1', '2', '3', '4', '5', '6', '7', '8', '9', 'a', 'b', 'c', 'd', 'e', 'f'][n]
}

/// How a JSON string holds one character: `"` and `\` after a backslash,
/// the five short escapes, other controls below U+0020 as `\u00xx`, and
/// everything else as it is.
pub open spec fn json_escape_char(c: char) -> Seq<char> {
    if c == '"' {
        seq!['\\', '"']
    } else if c == '\\' {
        seq!['\\', '\\']
    } else if c == '\u{8}' {
        seq!['\\', 'b']
    } else if c == '\t' {
        seq!['\\', 't']
    } else if c == '\n' {
        seq!['\\', 'n']
    } else if c == '\u{c}' {
        seq!['\\', 'f']
    } else if c == '\r' {
        seq!['\\', 'r']
    } else if (c as u32) < 0x20 {
        seq![
            '\\',
            'u',
            '0',
            '0',
            hex_digit((c as u32) as int / 16),
            hex_digit((c as u32) as int % 16),
        ]
    } else {
        seq![c]
    }
}

pub open spec fn json_escaped(s: Seq<char>) -> Seq<char>
    decreases s.len(),
{
    if s.len() == 0 {
        seq![]
    } else {
        json_escaped(s.drop_last()) + json_escape_char(s.last())
    }
}

/// The JSON string literal of a text.
pub open spec fn json_quoted(s: Seq<char>) -> Seq<char> {
    seq!['"'] + json_escaped(s) + seq!['"']
}

/// The frame of a command on the control connection.
pub open spec fn command_frame_of(cmd: CommandRequest) -> Seq<char> {
    frame_of(json_quoted(command_text_of(cmd)))
}

/// The message of an enqueue that found the writer gone.
pub open spec fn send_error_text() -> Seq<char> {
    seq!['s', 'e', 'n', 'd', ' ', 'e', 'r', 'r', 'o', 'r', ':', ' ']
        + seq!['c', 'h', 'a', 'n', 'n', 'e', 'l', ' ', 'c', 'l', 'o', 's', 'e', 'd']
}

/// Relies on serde_json::to_string applied to a `str`: serializing a `str`
/// writes into a `Vec`, which cannot fail, the text between double quotes,
/// each byte escaped by the ESCAPE table of serde_json's serializer and
/// `write_char_escape` (lowercase hex digits).
#[verifier::external_body]
fn quote_json(s: &str) -> (r: Result<String, serde_json::Error>)
    ensures
        r is Ok,
        r matches Ok(q) ==> q@ == json_quoted(s@),
{
    serde_json::to_string(s)
}

/// Relies on tokio's UnboundedSender::send: it never blocks, and when the
/// receiver is gone it fails and hands the message back unchanged.
#[verifier::external_body]
fn enqueue_frame(tx: &tokio::sync::mpsc::UnboundedSender<String>, frame: String) -> (r: Result<
    (),
    String,
>)
    ensures
        r matches Err(m) ==> m@ == frame@,
{
    tx.send(frame).map_err(|e| e.0)
}

/// The producer end of the command queue. It records, as ghost state, the
/// frames that it has put on the queue.
pub struct CommandSender {
    tx: tokio::sync::mpsc::UnboundedSender<String>,
    queued: Ghost<Seq<Seq<char>>>,
}

impl CommandSender {
    /// The frames that this handle has put on the queue, in order.
    pub closed spec fn queued(&self) -> Seq<Seq<char>> {
        self.queued@
    }

    pub fn new(tx: tokio::sync::mpsc::UnboundedSender<String>) -> (r: Self)
        ensures
            r.queued() == Seq::<Seq<char>>::empty(),
    {
        CommandSender { tx, queued: Ghost(Seq::empty()) }
    }
}

fn push_lit(out: &mut String, lit: &str)
    ensures
        final(out)@ == old(out)@ + lit@,
{
    out.append(lit);
}

/// The wire text of a command: `ALT N123 5000`, `HDG N123 270`.
pub fn command_text(cmd: &CommandRequest) -> (r: String)
    ensures
        r@ == command_text_of(*cmd),
{
    let mut out = String::new();
    let (id, value) = match cmd {
        CommandRequest::SetAltitude { id, value } => {
            proof {
                reveal_strlit("ALT");
            }
            push_lit(&mut out, "ALT");
            (id, value)
        },
        CommandRequest::SetHeading { id, value } => {
            proof {
                reveal_strlit("HDG");
            }
            push_lit(&mut out, "HDG");
            (id, value)
        },
    };
    proof {
        reveal_strlit(" ");
    }
    push_lit(&mut out, " ");
    push_lit(&mut out, id.as_str());
    push_lit(&mut out, " ");
    push_lit(&mut out, value.as_str());
    out
}

/// Wraps an encoded JSON string as the command frame `{"command":<quoted>}`.
pub fn frame_from_quoted(quoted: &str) -> (r: String)
    ensures
        r@ == frame_of(quoted@),
{
    let mut out = String::new();
    proof {
        reveal_strlit("{\"command\":");
        reveal_strlit("}");
    }
    push_lit(&mut out, "{\"command\":");
    push_lit(&mut out, quoted);
    push_lit(&mut out, "}");
    out
}

/// The frame written to the control connection for a command.
pub fn wire_frame(cmd: &CommandRequest) -> (r: String)
    ensures
        r@ == command_frame_of(*cmd),
{
    let text = command_text(cmd);
    match quote_json(text.as_str()) {
        Ok(quoted) => frame_from_quoted(quoted.as_str()),
        Err(_) => {
            proof {
                assert(false);
            }
            String::new()
        },
    }
}

/// The caller's view of an enqueue: success, or the writer gone.
pub fn send_outcome(sent: Result<(), String>) -> (r: Result<(), String>)
    ensures
        sent is Ok <==> r is Ok,
        r matches Err(e) ==> e@ == send_error_text(),
{
    match sent {
        Ok(()) => Ok(()),
        Err(_) => {
            proof {
                reveal_strlit("send error: channel closed");
            }
            Err(String::from_str("send error: channel closed"))
        },
    }
}

/// Encodes a command and puts its frame on the control writer's queue.
/// Success means that the frame was queued, not that it reached the
/// simulator; failure means that the writer is gone, and nothing was queued.
pub fn submit(sim: &mut CommandSender, cmd: &CommandRequest) -> (r: Result<(), String>)
    ensures
        r is Ok ==> final(sim).queued() == old(sim).queued().push(command_frame_of(*cmd)),
        r is Err ==> final(sim).queued() == old(sim).queued(),
        r matches Err(e) ==> e@ == send_error_text(),
{
    let frame = wire_frame(cmd);
    let ghost f = frame@;
    let sent = enqueue_frame(&sim.tx, frame);
    if sent.is_ok() {
        sim.queued = Ghost(sim.queued@.push(f));
    }
    send_outcome(sent)
}

/// Asks the simulator to move aircraft `id` to `altitude`.
pub fn set_altitude(sim: &mut CommandSender, id: &str, altitude: &str) -> (r: Result<(), String>)
    ensures
        r is Ok ==> final(sim).queued() == old(sim).queued().push(
            frame_of(json_quoted(seq!['A', 'L', 'T', ' '] + id@ + seq![' '] + altitude@)),
        ),
        r is Err ==> final(sim).queued() == old(sim).queued(),
        r matches Err(e) ==> e@ == send_error_text(),
{
    let cmd = CommandRequest::SetAltitude { id: String::from_str(id), value: String::from_str(altitude) };
    proof {
        assert(command_text_of(cmd) =~= seq!['A', 'L', 'T', ' '] + id@ + seq![' '] + altitude@);
    }
    submit(sim, &cmd)
}

/// Asks the simulator to turn aircraft `id` to `heading`.
pub fn set_heading(sim: &mut CommandSender, id: &str, heading: &str) -> (r: Result<(), String>)
    ensures
        r is Ok ==> final(sim).queued() == old(sim).queued().push(
            frame_of(json_quoted(seq!['H', 'D', 'G', ' '] + id@ + seq![' '] + heading@)),
        ),
        r is Err ==> final(sim).queued() == old(sim).queued(),
        r matches Err(e) ==> e@ == send_error_text(),
{
    let cmd = CommandRequest::SetHeading { id: String::from_str(id), value: String::from_str(heading) };
    proof {
        assert(command_text_of(cmd) =~= seq!['H', 'D', 'G', ' '] + id@ + seq![' '] + heading@);
    }
    submit(sim, &cmd)
}

} // verus!
