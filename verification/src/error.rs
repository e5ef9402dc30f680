//! The failures of a comparison: what can go wrong, and where.

use crate::encoding::debug_text;
use crate::encoding::render_debug;
use crate::json::Json;
use crate::json::JsonView;
use vstd::prelude::*;
use vstd::string::StringExecFns;

verus! {

/// One step into a JSON tree: the key of an object's member, or the index
/// of an array's item.
#[derive(Debug, PartialEq, Eq)]
pub enum PathSegment {
    Key(String),
    Index(usize),
}

/// The mathematical value of a [`PathSegment`].
pub enum SegmentView {
    Key(Seq<char>),
    Index(nat),
}

impl View for PathSegment {
    type V = SegmentView;

    open spec fn view(&self) -> SegmentView {
        match self {
            PathSegment::Key(key) => SegmentView::Key(key@),
            PathSegment::Index(index) => SegmentView::Index(*index as nat),
        }
    }
}

impl Clone for PathSegment {
    fn clone(&self) -> (res: PathSegment)
        ensures
            res@ == self@,
    {
        match self {
            PathSegment::Key(key) => PathSegment::Key(key.clone()),
            PathSegment::Index(index) => PathSegment::Index(*index),
        }
    }
}

/// The path that a vector of segments stands for: from the root downwards.
pub open spec fn path_view(path: Seq<PathSegment>) -> Seq<SegmentView> {
    path.map_values(|segment: PathSegment| segment@)
}

/// A copy of a path: the same segments in the same order.
pub fn clone_path(path: &Vec<PathSegment>) -> (copy: Vec<PathSegment>)
    ensures
        path_view(copy@) == path_view(path@),
{
    let mut copy: Vec<PathSegment> = Vec::new();
    let mut i: usize = 0;
    while i < path.len()
        invariant
            i <= path.len(),
            copy.len() == i,
            forall|k: int| 0 <= k < i ==> copy[k]@ == path[k]@,
        decreases path.len() - i,
    {
        copy.push(path[i].clone());
        i += 1;
    }
    assert(path_view(copy@) =~= path_view(path@));
    copy
}

/// Why a comparison failed.
#[derive(Debug, PartialEq, Eq)]
pub enum TesterError {
    /// The network call to a backend failed, or its response was no JSON.
    TransportFailure { endpoint: String, cause: String },
    /// The body of a request could not be encoded as a query string; the
    /// request was not sent.
    SerializationFailure { endpoint: String, cause: String },
    /// The two responses differ in shape. `path` leads to the first place
    /// where they do, `client_value` is what the candidate has there and
    /// `actual_value` what the reference has.
    JsonTypeMismatch {
        endpoint: String,
        path: Vec<PathSegment>,
        client_value: Json,
        actual_value: Json,
    },
}

/// The mathematical value of a [`TesterError`].
pub enum TesterErrorView {
    TransportFailure { endpoint: Seq<char>, cause: Seq<char> },
    SerializationFailure { endpoint: Seq<char>, cause: Seq<char> },
    JsonTypeMismatch {
        endpoint: Seq<char>,
        path: Seq<SegmentView>,
        client_value: JsonView,
        actual_value: JsonView,
    },
}

impl View for TesterError {
    type V = TesterErrorView;

    open spec fn view(&self) -> TesterErrorView {
        match self {
            TesterError::TransportFailure { endpoint, cause } => TesterErrorView::TransportFailure {
                endpoint: endpoint@,
                cause: cause@,
            },
            TesterError::SerializationFailure {
                endpoint,
                cause,
            } => TesterErrorView::SerializationFailure { endpoint: endpoint@, cause: cause@ },
            TesterError::JsonTypeMismatch {
                endpoint,
                path,
                client_value,
                actual_value,
            } => TesterErrorView::JsonTypeMismatch {
                endpoint: endpoint@,
                path: path_view(path@),
                client_value: client_value@,
                actual_value: actual_value@,
            },
        }
    }
}

/// The decimal digit for `d`, which is below ten.
pub open spec fn digit(d: nat) -> char {
    if d == 0 {
        '0'
    } else if d == 1 {
        '1'
    } else if d == 2 {
        '2'
    } else if d == 3 {
        '3'
    } else if d == 4 {
        '4'
    } else if d == 5 {
        '5'
    } else if d == 6 {
        '6'
    } else if d == 7 {
        '7'
    } else if d == 8 {
        '8'
    } else {
        '9'
    }
}

/// The decimal numeral of `n`, without leading zeros.
pub open spec fn decimal(n: nat) -> Seq<char>
    decreases n,
{
    if n < 10 {
        seq![digit(n)]
    } else {
        decimal(n / 10).push(digit(n % 10))
    }
}

/// The text of one segment: a key between double quotes, an index as its
/// decimal numeral.
pub open spec fn segment_text(segment: SegmentView) -> Seq<char> {
    match segment {
        SegmentView::Key(key) => "\""@ + key + "\""@,
        SegmentView::Index(index) => decimal(index),
    }
}

/// The texts of the segments of `path`, each but the first after `", "`.
pub open spec fn segments_text(path: Seq<SegmentView>) -> Seq<char>
    decreases path.len(),
{
    if path.len() == 0 {
        Seq::empty()
    } else if path.len() == 1 {
        segment_text(path[0])
    } else {
        segments_text(path.drop_last()) + ", "@ + segment_text(path.last())
    }
}

/// The text of a path: its segments between square brackets, as in
/// `["items", 0, "id"]`.
pub open spec fn path_text(path: Seq<SegmentView>) -> Seq<char> {
    "["@ + segments_text(path) + "]"@
}

/// The description of a failed call: which step failed, for which
/// endpoint, and why.
pub open spec fn failure_text(step: Seq<char>, endpoint: Seq<char>, cause: Seq<char>) -> Seq<char> {
    step + " failure at endpoint `"@ + endpoint + "`: "@ + cause
}

/// The description of a mismatch: the endpoint, the path and the texts of
/// the two values.
pub open spec fn mismatch_text(
    endpoint: Seq<char>,
    path: Seq<SegmentView>,
    client_text: Seq<char>,
    actual_text: Seq<char>,
) -> Seq<char> {
    "JSON type mismatch at endpoint `"@ + endpoint + "`.\nPath: "@ + path_text(path)
        + "\nClient Value: "@ + client_text + "\nActual Value: "@ + actual_text
}

impl TesterErrorView {
    /// The description of this error: the endpoint, the step that failed
    /// and, for a mismatch, the path and the two values.
    pub open spec fn message(self) -> Seq<char> {
        match self {
            TesterErrorView::TransportFailure { endpoint, cause } => failure_text(
                "Transport"@,
                endpoint,
                cause,
            ),
            TesterErrorView::SerializationFailure { endpoint, cause } => failure_text(
                "Serialization"@,
                endpoint,
                cause,
            ),
            TesterErrorView::JsonTypeMismatch {
                endpoint,
                path,
                client_value,
                actual_value,
            } => mismatch_text(
                endpoint,
                path,
                debug_text(client_value),
                debug_text(actual_value),
            ),
        }
    }
}

/// One decimal digit as a string.
fn digit_str(d: usize) -> (text: &'static str)
    requires
        d < 10,
    ensures
        text@ == seq![digit(d as nat)],
{
    proof {
        reveal_strlit("0");
        reveal_strlit("1");
        reveal_strlit("2");
        reveal_strlit("3");
        reveal_strlit("4");
        reveal_strlit("5");
        reveal_strlit("6");
        reveal_strlit("7");
        reveal_strlit("8");
        reveal_strlit("9");
    }
    let text = if d == 0 {
        "0"
    } else if d == 1 {
        "1"
    } else if d == 2 {
        "2"
    } else if d == 3 {
        "3"
    } else if d == 4 {
        "4"
    } else if d == 5 {
        "5"
    } else if d == 6 {
        "6"
    } else if d == 7 {
        "7"
    } else if d == 8 {
        "8"
    } else {
        "9"
    };
    assert(text@ =~= seq![digit(d as nat)]);
    text
}

/// The decimal numeral of `n`.
pub fn decimal_text(n: usize) -> (text: String)
    ensures
        text@ == decimal(n as nat),
    decreases n,
{
    if n < 10 {
        String::from_str(digit_str(n))
    } else {
        let mut text = decimal_text(n / 10);
        text.append(digit_str(n % 10));
        assert(text@ =~= decimal(n as nat));
        text
    }
}

impl PathSegment {
    /// The text of this segment.
    pub fn text(&self) -> (text: String)
        ensures
            text@ == segment_text(self@),
    {
        match self {
            PathSegment::Key(key) => {
                let mut text = String::from_str("\"");
                text.append(key.as_str());
                text.append("\"");
                text
            },
            PathSegment::Index(index) => decimal_text(*index),
        }
    }
}

/// The text of `path`.
pub fn render_path(path: &Vec<PathSegment>) -> (text: String)
    ensures
        text@ == path_text(path_view(path@)),
{
    let ghost whole = path_view(path@);
    let mut inner = String::new();
    let mut i: usize = 0;
    while i < path.len()
        invariant
            i <= path.len(),
            whole == path_view(path@),
            inner@ == segments_text(whole.take(i as int)),
        decreases path.len() - i,
    {
        let ghost before = whole.take(i as int);
        let ghost after = whole.take(i + 1);
        proof {
            assert(after.drop_last() =~= before);
            assert(after.last() == path[i as int]@);
        }
        if i > 0 {
            inner.append(", ");
        }
        let segment = path[i].text();
        inner.append(segment.as_str());
        proof {
            if i == 0 {
                assert(inner@ =~= segment_text(after[0]));
            }
        }
        i += 1;
    }
    assert(whole.take(path.len() as int) =~= whole);
    let mut text = String::from_str("[");
    text.append(inner.as_str());
    text.append("]");
    text
}

impl TesterError {
    /// The failure of a call to a backend: the network call itself failed,
    /// or what came back was no JSON. `cause` says which, in words.
    pub fn transport(endpoint: &str, cause: String) -> (e: TesterError)
        ensures
            e@ == (TesterErrorView::TransportFailure { endpoint: endpoint@, cause: cause@ }),
    {
        TesterError::TransportFailure { endpoint: endpoint.to_owned(), cause }
    }

    /// The failure to encode a request's body as a query string. `cause`
    /// says why, in words.
    pub fn serialization(endpoint: &str, cause: String) -> (e: TesterError)
        ensures
            e@ == (TesterErrorView::SerializationFailure { endpoint: endpoint@, cause: cause@ }),
    {
        TesterError::SerializationFailure { endpoint: endpoint.to_owned(), cause }
    }

    /// The endpoint whose comparison failed.
    pub fn endpoint(&self) -> (endpoint: &str)
        ensures
            endpoint@ == match self@ {
                TesterErrorView::TransportFailure { endpoint, .. } => endpoint,
                TesterErrorView::SerializationFailure { endpoint, .. } => endpoint,
                TesterErrorView::JsonTypeMismatch { endpoint, .. } => endpoint,
            },
    {
        match self {
            TesterError::TransportFailure { endpoint, .. } => endpoint.as_str(),
            TesterError::SerializationFailure { endpoint, .. } => endpoint.as_str(),
            TesterError::JsonTypeMismatch { endpoint, .. } => endpoint.as_str(),
        }
    }

    /// The description of this error, for whoever reads the test run's
    /// report.
    pub fn message(&self) -> (text: String)
        ensures
            text@ == self@.message(),
    {
        match self {
            TesterError::TransportFailure { endpoint, cause } => failure_message(
                "Transport",
                endpoint.as_str(),
                cause.as_str(),
            ),
            TesterError::SerializationFailure { endpoint, cause } => failure_message(
                "Serialization",
                endpoint.as_str(),
                cause.as_str(),
            ),
            TesterError::JsonTypeMismatch { endpoint, path, client_value, actual_value } => {
                let client_text = render_debug(client_value);
                let actual_text = render_debug(actual_value);
                mismatch_message(
                    endpoint.as_str(),
                    path,
                    client_text.as_str(),
                    actual_text.as_str(),
                )
            },
        }
    }
}

/// The description of a failed call.
pub fn failure_message(step: &str, endpoint: &str, cause: &str) -> (text: String)
    ensures
        text@ == failure_text(step@, endpoint@, cause@),
{
    let mut text = String::from_str(step);
    text.append(" failure at endpoint `");
    text.append(endpoint);
    text.append("`: ");
    text.append(cause);
    text
}

/// The description of a mismatch, given the texts of the two values.
pub fn mismatch_message(
    endpoint: &str,
    path: &Vec<PathSegment>,
    client_text: &str,
    actual_text: &str,
) -> (text: String)
    ensures
        text@ == mismatch_text(endpoint@, path_view(path@), client_text@, actual_text@),
{
    let mut text = String::from_str("JSON type mismatch at endpoint `");
    text.append(endpoint);
    text.append("`.\nPath: ");
    text.append(render_path(path).as_str());
    text.append("\nClient Value: ");
    text.append(client_text);
    text.append("\nActual Value: ");
    text.append(actual_text);
    text
}

} // verus!
