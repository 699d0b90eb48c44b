//! Command messages and the actions they request.
//!
//! A `Command` is encoded as the length-prefixed UTF-8 bytes of its target
//! name followed by the encoding of its action; an action is a 1-byte tag
//! in declaration order, and the link action appends its length-prefixed
//! receiver descriptor. Decoding accepts exactly the byte sequences that
//! encoding produces, and consumes the whole input.

use vstd::prelude::*;

use crate::codec::{
    bytes_field, bytes_field_fits, lemma_parse_bytes_field_at, lemma_parse_bytes_field_sound,
    lemma_parse_bytes_field_truncated, lemma_parse_text_field_at, lemma_parse_text_field_sound,
    lemma_parse_text_field_truncated, parse_bytes_field, parse_text_field, push_bytes_field,
    push_text_field, read_bytes_field, read_text_field, text_field, text_field_fits,
    MAX_FIELD_LEN,
};
use crate::error::ProtocolError;

verus! {

/// Operations an animus can be asked to perform.
///
/// On the wire each variant is tagged by its 0-based declaration order, so
/// the order below is part of the protocol: new variants may only be added
/// at the end, and a decoder rejects any tag it does not know.
#[derive(Debug, Clone, PartialEq, Eq)]
pub enum Action {
    /// Gets the name of the animus.
    /// Executes even when not targeted: used for discovery.
    Query,
    /// Gets the name of the complex that is managed by this animus.
    Name,
    /// Gets the version of the animus service that is running.
    Version,
    /// Reports "Success" if the animus is awake, and "Fail" if asleep.
    Status,
    /// Lists each structure in the network.
    ListStructures,
    /// Lists the outputs the animus exposes.
    ListOutputs,
    /// Lists the inputs the animus exposes.
    ListInputs,
    /// Reports the state of the animus's inputs.
    ReportInputs,
    /// Begins processing signals.
    Wake,
    /// Serializes the network state back to the save file.
    Save,
    /// Stops processing new stimuli.
    Sleep,
    /// Shuts down the animus service.
    Terminate,
    /// The animus will do nothing.
    /// This is used to ignore non-command datagrams.
    Ignore,
    /// Connects one of the animus's outputs to the input described by the
    /// embedded receiver descriptor. The descriptor is structured data
    /// owned by the routing subsystem; this protocol carries its encoded
    /// bytes opaquely, framed like any other variable-length field.
    ConnectTract(Vec<u8>),
}

/// The mathematical value of an `Action`: the same variant set, with the
/// receiver descriptor abstracted to its byte sequence.
pub enum ActionView {
    Query,
    Name,
    Version,
    Status,
    ListStructures,
    ListOutputs,
    ListInputs,
    ReportInputs,
    Wake,
    Save,
    Sleep,
    Terminate,
    Ignore,
    ConnectTract(Seq<u8>),
}

impl View for Action {
    type V = ActionView;

    open spec fn view(&self) -> ActionView {
        match self {
            Action::Query => ActionView::Query,
            Action::Name => ActionView::Name,
            Action::Version => ActionView::Version,
            Action::Status => ActionView::Status,
            Action::ListStructures => ActionView::ListStructures,
            Action::ListOutputs => ActionView::ListOutputs,
            Action::ListInputs => ActionView::ListInputs,
            Action::ReportInputs => ActionView::ReportInputs,
            Action::Wake => ActionView::Wake,
            Action::Save => ActionView::Save,
            Action::Sleep => ActionView::Sleep,
            Action::Terminate => ActionView::Terminate,
            Action::Ignore => ActionView::Ignore,
            Action::ConnectTract(d) => ActionView::ConnectTract(d@),
        }
    }
}

/// The wire tag of an action: its 0-based declaration order.
pub open spec fn action_tag(a: ActionView) -> u8 {
    match a {
        ActionView::Query => 0,
        ActionView::Name => 1,
        ActionView::Version => 2,
        ActionView::Status => 3,
        ActionView::ListStructures => 4,
        ActionView::ListOutputs => 5,
        ActionView::ListInputs => 6,
        ActionView::ReportInputs => 7,
        ActionView::Wake => 8,
        ActionView::Save => 9,
        ActionView::Sleep => 10,
        ActionView::Terminate => 11,
        ActionView::Ignore => 12,
        ActionView::ConnectTract(_) => 13,
    }
}

/// Whether a tag byte names any action variant.
pub open spec fn action_tag_in_range(t: u8) -> bool {
    t <= 13
}

/// The action named by a niladic tag byte.
pub open spec fn niladic_action(t: u8) -> ActionView
    recommends
        t <= 12,
{
    if t == 0 {
        ActionView::Query
    } else if t == 1 {
        ActionView::Name
    } else if t == 2 {
        ActionView::Version
    } else if t == 3 {
        ActionView::Status
    } else if t == 4 {
        ActionView::ListStructures
    } else if t == 5 {
        ActionView::ListOutputs
    } else if t == 6 {
        ActionView::ListInputs
    } else if t == 7 {
        ActionView::ReportInputs
    } else if t == 8 {
        ActionView::Wake
    } else if t == 9 {
        ActionView::Save
    } else if t == 10 {
        ActionView::Sleep
    } else if t == 11 {
        ActionView::Terminate
    } else {
        ActionView::Ignore
    }
}

/// The encoding of an action: its tag byte, and for the link action the
/// length-prefixed receiver descriptor after it.
pub open spec fn spec_encode_action(a: ActionView) -> Seq<u8>
    recommends
        action_fits(a),
{
    match a {
        ActionView::ConnectTract(d) => seq![13u8] + bytes_field(d),
        _ => seq![action_tag(a)],
    }
}

/// Whether an action's payload is small enough for its length prefix.
pub open spec fn action_fits(a: ActionView) -> bool {
    a matches ActionView::ConnectTract(d) ==> bytes_field_fits(d)
}

/// Reads an action at position `i`: a known tag byte, and for the link
/// action its descriptor payload; `None` on an unknown tag or a missing
/// payload.
pub open spec fn parse_action(b: Seq<u8>, i: int) -> Option<(ActionView, int)> {
    if 0 <= i && i + 1 <= b.len() {
        let t = b[i];
        if t == 13 {
            match parse_bytes_field(b, i + 1) {
                Some((d, j)) => Some((ActionView::ConnectTract(d), j)),
                None => None,
            }
        } else if t <= 12 {
            Some((niladic_action(t), i + 1))
        } else {
            None
        }
    } else {
        None
    }
}

/// An encoded action embedded in a larger input parses to the action it
/// encodes.
pub proof fn lemma_parse_action_at(b: Seq<u8>, i: int, a: ActionView)
    requires
        0 <= i,
        action_fits(a),
        i + spec_encode_action(a).len() <= b.len(),
        b.subrange(i, i + spec_encode_action(a).len() as int) == spec_encode_action(a),
    ensures
        parse_action(b, i) == Some((a, i + spec_encode_action(a).len())),
{
    let e = spec_encode_action(a);
    assert(b[i] == e[0]) by {
        assert(b.subrange(i, i + e.len() as int)[0] == b[i]);
    }
    match a {
        ActionView::ConnectTract(d) => {
            let w = i + e.len() as int;
            assert(b.subrange(i + 1, w) =~= b.subrange(i, w).subrange(1, e.len() as int));
            assert(e.subrange(1, e.len() as int) =~= bytes_field(d));
            lemma_parse_bytes_field_at(b, i + 1, d);
        },
        _ => {
            assert(niladic_action(action_tag(a)) == a);
        },
    }
}

/// Whatever `parse_action` accepts is the encoding of the action it
/// returns.
pub proof fn lemma_parse_action_sound(b: Seq<u8>, i: int)
    requires
        parse_action(b, i) is Some,
    ensures
        match parse_action(b, i) {
            Some((a, j)) => {
                &&& action_fits(a)
                &&& j == i + spec_encode_action(a).len()
                &&& 0 <= i && j <= b.len()
                &&& b.subrange(i, j) == spec_encode_action(a)
            },
            None => true,
        },
{
    let t = b[i];
    if t == 13 {
        lemma_parse_bytes_field_sound(b, i + 1);
        let (d, j) = parse_bytes_field(b, i + 1).unwrap();
        assert(b.subrange(i, j) =~= seq![13u8] + b.subrange(i + 1, j));
    } else {
        let (a, j) = parse_action(b, i).unwrap();
        assert(action_tag(a) == t);
        assert(b.subrange(i, j) =~= seq![t]);
    }
}

/// Truncating the input does not change what `parse_action` accepts.
pub proof fn lemma_parse_action_truncated(b: Seq<u8>, k: int, i: int)
    requires
        0 <= i,
        0 <= k <= b.len(),
        parse_action(b, i) is Some,
    ensures
        match parse_action(b, i) {
            Some((a, j)) => if j <= k {
                parse_action(b.subrange(0, k), i) == Some((a, j))
            } else {
                parse_action(b.subrange(0, k), i) is None
            },
            None => true,
        },
{
    let b2 = b.subrange(0, k);
    if i + 1 <= k {
        assert(b2[i] == b[i]);
        if b[i] == 13 {
            lemma_parse_bytes_field_truncated(b, k, i + 1);
        }
    }
}

/// A tag byte outside the variant set is rejected, never mapped to a
/// valid action.
pub proof fn lemma_action_tag_rejection(b: Seq<u8>, i: int)
    requires
        0 <= i < b.len(),
        !action_tag_in_range(b[i]),
    ensures
        parse_action(b, i) is None,
{
}

/// Command package for animus communication.
/// Build these values in the managing application to generate accurate
/// command messages.
#[derive(Debug, Clone, PartialEq, Eq)]
pub struct Command {
    /// The name of the animus this command targets.
    pub name: String,
    /// The action to be executed by the animus.
    pub action: Action,
}

/// The mathematical value of a `Command`.
pub struct CommandView {
    pub name: Seq<char>,
    pub action: ActionView,
}

impl View for Command {
    type V = CommandView;

    open spec fn view(&self) -> CommandView {
        CommandView { name: self.name@, action: self.action@ }
    }
}

/// The no-op sentinel: an empty target name and the `Ignore` action.
pub open spec fn ignore_view() -> CommandView {
    CommandView { name: Seq::empty(), action: ActionView::Ignore }
}

/// The encoding of a command: its length-prefixed name, then its action.
pub open spec fn spec_encode_command(c: CommandView) -> Seq<u8>
    recommends
        command_fits(c),
{
    text_field(c.name) + spec_encode_action(c.action)
}

/// Whether a command's variable-length fields fit their length prefixes.
pub open spec fn command_fits(c: CommandView) -> bool {
    text_field_fits(c.name) && action_fits(c.action)
}

/// Reads a command at position `i`: a text field, then an action.
pub open spec fn parse_command_at(b: Seq<u8>, i: int) -> Option<(CommandView, int)> {
    match parse_text_field(b, i) {
        Some((s, j)) => match parse_action(b, j) {
            Some((a, k)) => Some((CommandView { name: s, action: a }, k)),
            None => None,
        },
        None => None,
    }
}

/// The command encoded by exactly the whole input, if any.
pub open spec fn parse_command(b: Seq<u8>) -> Option<CommandView> {
    match parse_command_at(b, 0) {
        Some((c, j)) => if j == b.len() {
            Some(c)
        } else {
            None
        },
        None => None,
    }
}

/// Round trip: every command that fits its length prefixes decodes from
/// its own encoding, back to the same value.
pub proof fn lemma_command_round_trip(c: CommandView)
    requires
        command_fits(c),
    ensures
        parse_command(spec_encode_command(c)) == Some(c),
{
    let b = spec_encode_command(c);
    let tf = text_field(c.name);
    let ab = spec_encode_action(c.action);
    assert(b.subrange(0, tf.len() as int) =~= tf);
    lemma_parse_text_field_at(b, 0, c.name);
    assert(b.subrange(tf.len() as int, b.len() as int) =~= ab);
    lemma_parse_action_at(b, tf.len() as int, c.action);
}

/// Soundness: a byte sequence that decodes as a command is exactly that
/// command's encoding — decoding accepts nothing outside the image of
/// encoding.
pub proof fn lemma_parse_command_sound(b: Seq<u8>)
    requires
        parse_command(b) is Some,
    ensures
        match parse_command(b) {
            Some(c) => command_fits(c) && b == spec_encode_command(c),
            None => true,
        },
{
    lemma_parse_text_field_sound(b, 0);
    let (s, j) = parse_text_field(b, 0).unwrap();
    lemma_parse_action_sound(b, j);
    let (a, k) = parse_action(b, j).unwrap();
    assert(b =~= b.subrange(0, j) + b.subrange(j, k));
}

/// Truncation: cutting the last byte off any valid command encoding makes
/// it reject.
pub proof fn lemma_command_truncation(c: CommandView)
    requires
        command_fits(c),
    ensures
        spec_encode_command(c).len() > 0,
        parse_command(spec_encode_command(c).drop_last()) is None,
{
    let b = spec_encode_command(c);
    let tf = text_field(c.name);
    let ab = spec_encode_action(c.action);
    assert(b.subrange(0, tf.len() as int) =~= tf);
    lemma_parse_text_field_at(b, 0, c.name);
    assert(b.subrange(tf.len() as int, b.len() as int) =~= ab);
    lemma_parse_action_at(b, tf.len() as int, c.action);
    let k = b.len() - 1;
    assert(b.drop_last() =~= b.subrange(0, k));
    lemma_parse_text_field_truncated(b, k, 0);
    lemma_parse_action_truncated(b, k, tf.len() as int);
}

impl Command {
    /// Builds a command from the name of the target animus and the action
    /// to perform.
    pub fn new(name: &str, action: Action) -> (c: Command)
        ensures
            c@.name == name@,
            c@.action == action@,
    {
        Command { name: name.to_owned(), action }
    }

    /// The no-op sentinel command: the animus will do nothing.
    /// This is what non-command datagrams decode to at the receive-loop
    /// boundary, and it is also useful in testing.
    pub fn ignore() -> (c: Command)
        ensures
            c@ == ignore_view(),
    {
        Command { name: String::new(), action: Action::Ignore }
    }

    /// Serializes this command to bytes; fails with `Encode` exactly when
    /// a variable-length field is too long for its length prefix.
    pub fn encode(&self) -> (r: Result<Vec<u8>, ProtocolError>)
        ensures
            match r {
                Ok(bytes) => command_fits(self@) && bytes@ == spec_encode_command(self@),
                Err(e) => e == ProtocolError::Encode && !command_fits(self@),
            },
    {
        let mut out: Vec<u8> = Vec::new();
        if !push_text_field(&mut out, self.name.as_str()) {
            return Err(ProtocolError::Encode);
        }
        if !push_action(&mut out, &self.action) {
            return Err(ProtocolError::Encode);
        }
        proof {
            assert(out@ =~= spec_encode_command(self@));
        }
        Ok(out)
    }

    /// Deserializes a command from bytes; fails with `Decode` exactly when
    /// the input is not the encoding of a command.
    pub fn decode(input: &[u8]) -> (r: Result<Command, ProtocolError>)
        ensures
            match r {
                Ok(c) => parse_command(input@) == Some(c@),
                Err(e) => e == ProtocolError::Decode && parse_command(input@) is None,
            },
    {
        match read_text_field(input, 0) {
            Some((name, j)) => match read_action(input, j) {
                Some((action, k)) => if k == input.len() {
                    Ok(Command { name, action })
                } else {
                    Err(ProtocolError::Decode)
                },
                None => Err(ProtocolError::Decode),
            },
            None => Err(ProtocolError::Decode),
        }
    }

    /// Deserializes a command, treating anything that is not a valid
    /// command as the no-op sentinel instead of an error. This is the
    /// receive-loop boundary policy: on a connectionless transport,
    /// unrelated traffic is discarded rather than surfaced as a failure.
    pub fn decode_or_ignore(input: &[u8]) -> (c: Command)
        ensures
            match parse_command(input@) {
                Some(m) => c@ == m,
                None => c@ == ignore_view(),
            },
    {
        match Command::decode(input) {
            Ok(c) => c,
            Err(_) => Command::ignore(),
        }
    }
}

/// The text each action renders as.
pub open spec fn action_text(a: ActionView) -> Seq<char> {
    match a {
        ActionView::Query => "Query"@,
        ActionView::Name => "Name"@,
        ActionView::Version => "Version"@,
        ActionView::Status => "Status"@,
        ActionView::ListStructures => "ListStructures"@,
        ActionView::ListOutputs => "ListOutputs"@,
        ActionView::ListInputs => "ListInputs"@,
        ActionView::ReportInputs => "ReportInputs"@,
        ActionView::Wake => "Wake"@,
        ActionView::Save => "Save"@,
        ActionView::Sleep => "Sleep"@,
        ActionView::Terminate => "Terminate"@,
        ActionView::Ignore => "Ignore"@,
        ActionView::ConnectTract(_) => "ConnectTract"@,
    }
}

impl Action {
    /// Renders this action as text, by its variant name.
    pub fn to_text(&self) -> (r: String)
        ensures
            r@ == action_text(self@),
    {
        let s: &str = match self {
            Action::Query => "Query",
            Action::Name => "Name",
            Action::Version => "Version",
            Action::Status => "Status",
            Action::ListStructures => "ListStructures",
            Action::ListOutputs => "ListOutputs",
            Action::ListInputs => "ListInputs",
            Action::ReportInputs => "ReportInputs",
            Action::Wake => "Wake",
            Action::Save => "Save",
            Action::Sleep => "Sleep",
            Action::Terminate => "Terminate",
            Action::Ignore => "Ignore",
            Action::ConnectTract(_) => "ConnectTract",
        };
        s.to_owned()
    }
}

/// Appends an action's encoding; fails, leaving the output untouched,
/// exactly when the payload is too long for its length prefix.
pub(crate) fn push_action(out: &mut Vec<u8>, a: &Action) -> (ok: bool)
    ensures
        ok == action_fits(a@),
        ok ==> final(out)@ == old(out)@ + spec_encode_action(a@),
        !ok ==> final(out)@ == old(out)@,
{
    if let Action::ConnectTract(d) = a {
        if d.len() > MAX_FIELD_LEN {
            return false;
        }
        out.push(13u8);
        push_bytes_field(out, d.as_slice());
        proof {
            assert(out@ =~= old(out)@ + spec_encode_action(a@));
        }
        true
    } else {
        let t: u8 = match a {
            Action::Query => 0,
            Action::Name => 1,
            Action::Version => 2,
            Action::Status => 3,
            Action::ListStructures => 4,
            Action::ListOutputs => 5,
            Action::ListInputs => 6,
            Action::ReportInputs => 7,
            Action::Wake => 8,
            Action::Save => 9,
            Action::Sleep => 10,
            Action::Terminate => 11,
            Action::Ignore => 12,
            Action::ConnectTract(_) => 13,
        };
        out.push(t);
        proof {
            assert(out@ =~= old(out)@ + spec_encode_action(a@));
        }
        true
    }
}

/// Reads an action's encoding, as `parse_action` describes.
pub(crate) fn read_action(b: &[u8], i: usize) -> (r: Option<(Action, usize)>)
    ensures
        match r {
            Some((a, j)) => parse_action(b@, i as int) == Some((a@, j as int)),
            None => parse_action(b@, i as int) is None,
        },
{
    if i < b.len() {
        let t = b[i];
        let j = i + 1;
        if t == 13 {
            match read_bytes_field(b, j) {
                Some((d, k)) => Some((Action::ConnectTract(d), k)),
                None => None,
            }
        } else if t == 0 {
            Some((Action::Query, j))
        } else if t == 1 {
            Some((Action::Name, j))
        } else if t == 2 {
            Some((Action::Version, j))
        } else if t == 3 {
            Some((Action::Status, j))
        } else if t == 4 {
            Some((Action::ListStructures, j))
        } else if t == 5 {
            Some((Action::ListOutputs, j))
        } else if t == 6 {
            Some((Action::ListInputs, j))
        } else if t == 7 {
            Some((Action::ReportInputs, j))
        } else if t == 8 {
            Some((Action::Wake, j))
        } else if t == 9 {
            Some((Action::Save, j))
        } else if t == 10 {
            Some((Action::Sleep, j))
        } else if t == 11 {
            Some((Action::Terminate, j))
        } else if t == 12 {
            Some((Action::Ignore, j))
        } else {
            None
        }
    } else {
        None
    }
}

} // verus!

