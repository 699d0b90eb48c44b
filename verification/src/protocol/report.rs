//! Report messages: the response an animus sends after processing a
//! command.
//!
//! A `Report` is encoded as the length-prefixed UTF-8 bytes of the
//! responder's name, the echoed action, then the outcome; an outcome is a
//! 1-byte tag in declaration order, and `Return` appends its
//! length-prefixed payload text. Decoding accepts exactly the byte
//! sequences that encoding produces, and consumes the whole input.

use vstd::prelude::*;

use crate::codec::{
    lemma_parse_text_field_at, lemma_parse_text_field_sound, lemma_parse_text_field_truncated,
    parse_text_field, push_text_field, read_text_field, text_field, text_field_fits,
};
use crate::error::ProtocolError;
use crate::protocol::command::{
    action_fits, lemma_parse_action_at, lemma_parse_action_sound, lemma_parse_action_truncated,
    parse_action, push_action, read_action, spec_encode_action, Action, ActionView,
};

verus! {

/// The result of an action, as an animus reports it.
///
/// On the wire each variant is tagged by its 0-based declaration order;
/// a decoder rejects any tag it does not know.
#[derive(Debug, Clone, PartialEq, Eq)]
pub enum Outcome {
    /// The action was successfully executed.
    Success,
    /// The command was received but the action failed.
    Fail,
    /// The action completed and yields data; which shape of text the
    /// payload carries follows from the echoed action.
    Return(String),
}

/// The mathematical value of an `Outcome`.
pub enum OutcomeView {
    Success,
    Fail,
    Return(Seq<char>),
}

impl View for Outcome {
    type V = OutcomeView;

    open spec fn view(&self) -> OutcomeView {
        match self {
            Outcome::Success => OutcomeView::Success,
            Outcome::Fail => OutcomeView::Fail,
            Outcome::Return(s) => OutcomeView::Return(s@),
        }
    }
}

/// The wire tag of an outcome: its 0-based declaration order.
pub open spec fn outcome_tag(o: OutcomeView) -> u8 {
    match o {
        OutcomeView::Success => 0,
        OutcomeView::Fail => 1,
        OutcomeView::Return(_) => 2,
    }
}

/// Whether a tag byte names any outcome variant.
pub open spec fn outcome_tag_in_range(t: u8) -> bool {
    t <= 2
}

/// The encoding of an outcome: its tag byte, and for `Return` the
/// length-prefixed payload text after it.
pub open spec fn spec_encode_outcome(o: OutcomeView) -> Seq<u8>
    recommends
        outcome_fits(o),
{
    match o {
        OutcomeView::Return(s) => seq![2u8] + text_field(s),
        _ => seq![outcome_tag(o)],
    }
}

/// Whether an outcome's payload is small enough for its length prefix.
pub open spec fn outcome_fits(o: OutcomeView) -> bool {
    o matches OutcomeView::Return(s) ==> text_field_fits(s)
}

/// Reads an outcome at position `i`: a known tag byte, and for `Return`
/// its payload text; `None` on an unknown tag or a bad payload.
pub open spec fn parse_outcome(b: Seq<u8>, i: int) -> Option<(OutcomeView, int)> {
    if 0 <= i && i + 1 <= b.len() {
        let t = b[i];
        if t == 0 {
            Some((OutcomeView::Success, i + 1))
        } else if t == 1 {
            Some((OutcomeView::Fail, i + 1))
        } else if t == 2 {
            match parse_text_field(b, i + 1) {
                Some((s, j)) => Some((OutcomeView::Return(s), j)),
                None => None,
            }
        } else {
            None
        }
    } else {
        None
    }
}

/// An encoded outcome embedded in a larger input parses to the outcome it
/// encodes.
pub proof fn lemma_parse_outcome_at(b: Seq<u8>, i: int, o: OutcomeView)
    requires
        0 <= i,
        outcome_fits(o),
        i + spec_encode_outcome(o).len() <= b.len(),
        b.subrange(i, i + spec_encode_outcome(o).len() as int) == spec_encode_outcome(o),
    ensures
        parse_outcome(b, i) == Some((o, i + spec_encode_outcome(o).len())),
{
    let e = spec_encode_outcome(o);
    assert(b[i] == e[0]) by {
        assert(b.subrange(i, i + e.len() as int)[0] == b[i]);
    }
    match o {
        OutcomeView::Return(s) => {
            let w = i + e.len() as int;
            assert(b.subrange(i + 1, w) =~= b.subrange(i, w).subrange(1, e.len() as int));
            assert(e.subrange(1, e.len() as int) =~= text_field(s));
            lemma_parse_text_field_at(b, i + 1, s);
        },
        _ => {},
    }
}

/// Whatever `parse_outcome` accepts is the encoding of the outcome it
/// returns.
pub proof fn lemma_parse_outcome_sound(b: Seq<u8>, i: int)
    requires
        parse_outcome(b, i) is Some,
    ensures
        match parse_outcome(b, i) {
            Some((o, j)) => {
                &&& outcome_fits(o)
                &&& j == i + spec_encode_outcome(o).len()
                &&& 0 <= i && j <= b.len()
                &&& b.subrange(i, j) == spec_encode_outcome(o)
            },
            None => true,
        },
{
    let t = b[i];
    if t == 2 {
        lemma_parse_text_field_sound(b, i + 1);
        let (s, j) = parse_text_field(b, i + 1).unwrap();
        assert(b.subrange(i, j) =~= seq![2u8] + b.subrange(i + 1, j));
    } else {
        let (o, j) = parse_outcome(b, i).unwrap();
        assert(b.subrange(i, j) =~= seq![t]);
    }
}

/// Truncating the input does not change what `parse_outcome` accepts.
pub proof fn lemma_parse_outcome_truncated(b: Seq<u8>, k: int, i: int)
    requires
        0 <= i,
        0 <= k <= b.len(),
        parse_outcome(b, i) is Some,
    ensures
        match parse_outcome(b, i) {
            Some((o, j)) => if j <= k {
                parse_outcome(b.subrange(0, k), i) == Some((o, j))
            } else {
                parse_outcome(b.subrange(0, k), i) is None
            },
            None => true,
        },
{
    let b2 = b.subrange(0, k);
    if i + 1 <= k {
        assert(b2[i] == b[i]);
        if b[i] == 2 {
            lemma_parse_text_field_truncated(b, k, i + 1);
        }
    }
}

/// A tag byte outside the variant set is rejected, never mapped to a
/// valid outcome.
pub proof fn lemma_outcome_tag_rejection(b: Seq<u8>, i: int)
    requires
        0 <= i < b.len(),
        !outcome_tag_in_range(b[i]),
    ensures
        parse_outcome(b, i) is None,
{
}

/// Response package the animus sends back after processing a command.
/// Parse these values in the managing application to accurately read
/// response messages.
#[derive(Debug, Clone, PartialEq, Eq)]
pub struct Report {
    /// The name of the animus sending the response.
    pub name: String,
    /// The command action that triggered the response, echoed back as the
    /// client's correlation signal.
    pub action: Action,
    /// The result of the action.
    pub outcome: Outcome,
}

/// The mathematical value of a `Report`.
pub struct ReportView {
    pub name: Seq<char>,
    pub action: ActionView,
    pub outcome: OutcomeView,
}

impl View for Report {
    type V = ReportView;

    open spec fn view(&self) -> ReportView {
        ReportView { name: self.name@, action: self.action@, outcome: self.outcome@ }
    }
}

/// The encoding of a report: its length-prefixed responder name, the
/// echoed action, then the outcome.
pub open spec fn spec_encode_report(r: ReportView) -> Seq<u8>
    recommends
        report_fits(r),
{
    text_field(r.name) + spec_encode_action(r.action) + spec_encode_outcome(r.outcome)
}

/// Whether a report's variable-length fields fit their length prefixes.
pub open spec fn report_fits(r: ReportView) -> bool {
    text_field_fits(r.name) && action_fits(r.action) && outcome_fits(r.outcome)
}

/// Reads a report at position `i`: a text field, an action, then an
/// outcome.
pub open spec fn parse_report_at(b: Seq<u8>, i: int) -> Option<(ReportView, int)> {
    match parse_text_field(b, i) {
        Some((s, j)) => match parse_action(b, j) {
            Some((a, k)) => match parse_outcome(b, k) {
                Some((o, m)) => Some((ReportView { name: s, action: a, outcome: o }, m)),
                None => None,
            },
            None => None,
        },
        None => None,
    }
}

/// The report encoded by exactly the whole input, if any.
pub open spec fn parse_report(b: Seq<u8>) -> Option<ReportView> {
    match parse_report_at(b, 0) {
        Some((r, j)) => if j == b.len() {
            Some(r)
        } else {
            None
        },
        None => None,
    }
}

/// Round trip: every report that fits its length prefixes decodes from
/// its own encoding, back to the same value.
pub proof fn lemma_report_round_trip(r: ReportView)
    requires
        report_fits(r),
    ensures
        parse_report(spec_encode_report(r)) == Some(r),
{
    let b = spec_encode_report(r);
    let tf = text_field(r.name);
    let ab = spec_encode_action(r.action);
    let ob = spec_encode_outcome(r.outcome);
    let j = tf.len() as int;
    let k = j + ab.len() as int;
    assert(b.subrange(0, j) =~= tf);
    lemma_parse_text_field_at(b, 0, r.name);
    assert(b.subrange(j, k) =~= ab);
    lemma_parse_action_at(b, j, r.action);
    assert(b.subrange(k, b.len() as int) =~= ob);
    lemma_parse_outcome_at(b, k, r.outcome);
}

/// Soundness: a byte sequence that decodes as a report is exactly that
/// report's encoding — decoding accepts nothing outside the image of
/// encoding.
pub proof fn lemma_parse_report_sound(b: Seq<u8>)
    requires
        parse_report(b) is Some,
    ensures
        match parse_report(b) {
            Some(r) => report_fits(r) && b == spec_encode_report(r),
            None => true,
        },
{
    lemma_parse_text_field_sound(b, 0);
    let (s, j) = parse_text_field(b, 0).unwrap();
    lemma_parse_action_sound(b, j);
    let (a, k) = parse_action(b, j).unwrap();
    lemma_parse_outcome_sound(b, k);
    let (o, m) = parse_outcome(b, k).unwrap();
    assert(b =~= b.subrange(0, j) + b.subrange(j, k) + b.subrange(k, m));
}

/// Truncation: cutting the last byte off any valid report encoding makes
/// it reject.
pub proof fn lemma_report_truncation(r: ReportView)
    requires
        report_fits(r),
    ensures
        spec_encode_report(r).len() > 0,
        parse_report(spec_encode_report(r).drop_last()) is None,
{
    let b = spec_encode_report(r);
    let tf = text_field(r.name);
    let ab = spec_encode_action(r.action);
    let ob = spec_encode_outcome(r.outcome);
    let j = tf.len() as int;
    let k = j + ab.len() as int;
    assert(b.subrange(0, j) =~= tf);
    lemma_parse_text_field_at(b, 0, r.name);
    assert(b.subrange(j, k) =~= ab);
    lemma_parse_action_at(b, j, r.action);
    assert(b.subrange(k, b.len() as int) =~= ob);
    lemma_parse_outcome_at(b, k, r.outcome);
    let w = b.len() - 1;
    assert(b.drop_last() =~= b.subrange(0, w));
    lemma_parse_text_field_truncated(b, w, 0);
    lemma_parse_action_truncated(b, w, j);
    lemma_parse_outcome_truncated(b, w, k);
}

impl Report {
    /// Builds the response to a dispatched command: this animus's own
    /// name, the original action echoed back, and the outcome the runtime
    /// produced for it.
    pub fn new(name: &str, action: Action, outcome: Outcome) -> (r: Report)
        ensures
            r@.name == name@,
            r@.action == action@,
            r@.outcome == outcome@,
    {
        Report { name: name.to_owned(), action, outcome }
    }

    /// Serializes this report to bytes; fails with `Encode` exactly when
    /// a variable-length field is too long for its length prefix.
    pub fn encode(&self) -> (r: Result<Vec<u8>, ProtocolError>)
        ensures
            match r {
                Ok(bytes) => report_fits(self@) && bytes@ == spec_encode_report(self@),
                Err(e) => e == ProtocolError::Encode && !report_fits(self@),
            },
    {
        let mut out: Vec<u8> = Vec::new();
        if !push_text_field(&mut out, self.name.as_str()) {
            return Err(ProtocolError::Encode);
        }
        if !push_action(&mut out, &self.action) {
            return Err(ProtocolError::Encode);
        }
        if !push_outcome(&mut out, &self.outcome) {
            return Err(ProtocolError::Encode);
        }
        proof {
            assert(out@ =~= spec_encode_report(self@));
        }
        Ok(out)
    }

    /// Deserializes a report from bytes; fails with `Decode` exactly when
    /// the input is not the encoding of a report.
    pub fn decode(input: &[u8]) -> (r: Result<Report, ProtocolError>)
        ensures
            match r {
                Ok(rep) => parse_report(input@) == Some(rep@),
                Err(e) => e == ProtocolError::Decode && parse_report(input@) is None,
            },
    {
        match read_text_field(input, 0) {
            Some((name, j)) => match read_action(input, j) {
                Some((action, k)) => match read_outcome(input, k) {
                    Some((outcome, m)) => if m == input.len() {
                        Ok(Report { name, action, outcome })
                    } else {
                        Err(ProtocolError::Decode)
                    },
                    None => Err(ProtocolError::Decode),
                },
                None => Err(ProtocolError::Decode),
            },
            None => Err(ProtocolError::Decode),
        }
    }
}

/// The text each outcome renders as: its variant name, or for `Return`
/// the payload itself.
pub open spec fn outcome_text(o: OutcomeView) -> Seq<char> {
    match o {
        OutcomeView::Success => "Success"@,
        OutcomeView::Fail => "Fail"@,
        OutcomeView::Return(s) => s,
    }
}

impl Outcome {
    /// Renders this outcome as text: its variant name, or for `Return`
    /// the payload's own text.
    pub fn to_text(&self) -> (r: String)
        ensures
            r@ == outcome_text(self@),
    {
        match self {
            Outcome::Success => "Success".to_owned(),
            Outcome::Fail => "Fail".to_owned(),
            Outcome::Return(msg) => msg.clone(),
        }
    }
}

/// Appends an outcome's encoding; fails, leaving the output untouched,
/// exactly when the payload is too long for its length prefix.
pub(crate) fn push_outcome(out: &mut Vec<u8>, o: &Outcome) -> (ok: bool)
    ensures
        ok == outcome_fits(o@),
        ok ==> final(out)@ == old(out)@ + spec_encode_outcome(o@),
        !ok ==> final(out)@ == old(out)@,
{
    match o {
        Outcome::Success => {
            out.push(0u8);
            proof {
                assert(out@ =~= old(out)@ + spec_encode_outcome(o@));
            }
            true
        },
        Outcome::Fail => {
            out.push(1u8);
            proof {
                assert(out@ =~= old(out)@ + spec_encode_outcome(o@));
            }
            true
        },
        Outcome::Return(msg) => {
            out.push(2u8);
            if push_text_field(out, msg.as_str()) {
                proof {
                    assert(out@ =~= old(out)@ + spec_encode_outcome(o@));
                }
                true
            } else {
                out.pop();
                proof {
                    assert(out@ =~= old(out)@);
                }
                false
            }
        },
    }
}

/// Reads an outcome's encoding, as `parse_outcome` describes.
pub(crate) fn read_outcome(b: &[u8], i: usize) -> (r: Option<(Outcome, usize)>)
    ensures
        match r {
            Some((o, j)) => parse_outcome(b@, i as int) == Some((o@, j as int)),
            None => parse_outcome(b@, i as int) is None,
        },
{
    if i < b.len() {
        let t = b[i];
        let j = i + 1;
        if t == 0 {
            Some((Outcome::Success, j))
        } else if t == 1 {
            Some((Outcome::Fail, j))
        } else if t == 2 {
            match read_text_field(b, j) {
                Some((s, k)) => Some((Outcome::Return(s), k)),
                None => None,
            }
        } else {
            None
        }
    } else {
        None
    }
}

} // verus!
