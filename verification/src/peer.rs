//! The requests a node sends to its peers, and what it makes of their
//! replies.

use crate::failure::Repair;
use crate::failure::RepairView;
use crate::node::ChordNode;
use crate::ring::PORT;
use crate::text::decimal;
use crate::text::decimal_text;
use vstd::prelude::*;
use vstd::string::StringExecFns;

verus! {

/// The HTTP method of a request.
#[derive(Clone, Copy, Debug, PartialEq, Eq, Structural)]
pub enum Method {
    Get,
    Post,
    Patch,
    Delete,
}

impl Method {
    /// The method's name in capitals.
    pub open spec fn name_text(self) -> Seq<char> {
        match self {
            Method::Get => "GET"@,
            Method::Post => "POST"@,
            Method::Patch => "PATCH"@,
            Method::Delete => "DELETE"@,
        }
    }

    /// The method's name in capitals.
    pub fn name(&self) -> (name: &'static str)
        ensures
            name@ == self.name_text(),
    {
        match self {
            Method::Get => "GET",
            Method::Post => "POST",
            Method::Patch => "PATCH",
            Method::Delete => "DELETE",
        }
    }
}

/// A request to a peer.
pub enum PeerRequest {
    /// What is your immediate successor?
    Successor,
    /// What is your closest preceding finger of this identifier?
    ClosestPreceding { id: u64 },
    /// What is your predecessor?
    Predecessor,
    /// Consider the node `n` for entry `i` of your finger table.
    FingerTable { n: String, i: u64 },
    /// The node `n` may be your predecessor.
    Notify { n: String },
    /// Insert this key into the table.
    Key { key: String },
    /// Store a replica of this key.
    Replica { key: String },
    /// Is this key in the table?
    HasKey { key: String },
}

/// The mathematical value of a [`PeerRequest`].
pub enum PeerRequestView {
    Successor,
    ClosestPreceding { id: u64 },
    Predecessor,
    FingerTable { n: Seq<char>, i: u64 },
    Notify { n: Seq<char> },
    Key { key: Seq<char> },
    Replica { key: Seq<char> },
    HasKey { key: Seq<char> },
}

impl View for PeerRequest {
    type V = PeerRequestView;

    open spec fn view(&self) -> PeerRequestView {
        match self {
            PeerRequest::Successor => PeerRequestView::Successor,
            PeerRequest::ClosestPreceding { id } => PeerRequestView::ClosestPreceding { id: *id },
            PeerRequest::Predecessor => PeerRequestView::Predecessor,
            PeerRequest::FingerTable { n, i } => PeerRequestView::FingerTable { n: n@, i: *i },
            PeerRequest::Notify { n } => PeerRequestView::Notify { n: n@ },
            PeerRequest::Key { key } => PeerRequestView::Key { key: key@ },
            PeerRequest::Replica { key } => PeerRequestView::Replica { key: key@ },
            PeerRequest::HasKey { key } => PeerRequestView::HasKey { key: key@ },
        }
    }
}

impl PeerRequestView {
    /// The method the request is sent with.
    pub open spec fn method(self) -> Method {
        match self {
            PeerRequestView::Successor => Method::Get,
            PeerRequestView::ClosestPreceding { .. } => Method::Get,
            PeerRequestView::Predecessor => Method::Get,
            PeerRequestView::FingerTable { .. } => Method::Patch,
            PeerRequestView::Notify { .. } => Method::Patch,
            PeerRequestView::Key { .. } => Method::Post,
            PeerRequestView::Replica { .. } => Method::Post,
            PeerRequestView::HasKey { .. } => Method::Get,
        }
    }

    /// The path the request is sent to, without the leading slash.
    pub open spec fn path(self) -> Seq<char> {
        match self {
            PeerRequestView::Successor => "successor/"@,
            PeerRequestView::ClosestPreceding { id } => "successor/cpf/"@ + decimal(id as nat)
                + "/"@,
            PeerRequestView::Predecessor => "predecessor/"@,
            PeerRequestView::FingerTable { .. } => "fingertable/"@,
            PeerRequestView::Notify { .. } => "notify/"@,
            PeerRequestView::Key { .. } => "key/"@,
            PeerRequestView::Replica { .. } => "replica/"@,
            PeerRequestView::HasKey { key } => "key/"@ + key,
        }
    }

    /// The fields of the form the request carries; none for a `GET`.
    pub open spec fn form(self) -> Seq<(Seq<char>, Seq<char>)> {
        match self {
            PeerRequestView::FingerTable { n, i } => seq![("n"@, n), ("i"@, decimal(i as nat))],
            PeerRequestView::Notify { n } => seq![("n"@, n)],
            PeerRequestView::Key { key } => seq![("key"@, key)],
            PeerRequestView::Replica { key } => seq![("key"@, key)],
            _ => Seq::empty(),
        }
    }
}

/// The address of a request: `http://<addr>:<PORT>/<path>`.
pub open spec fn peer_url_text(addr: Seq<char>, path: Seq<char>) -> Seq<char> {
    "http://"@ + addr + ":"@ + decimal(PORT as nat) + "/"@ + path
}

/// The address to which a request with the path `path` goes on the node
/// `addr`.
pub fn peer_url(addr: &str, path: &str) -> (url: String)
    ensures
        url@ == peer_url_text(addr@, path@),
{
    let mut url = String::from_str("http://");
    url.append(addr);
    url.append(":");
    let port = decimal_text(PORT as u64);
    url.append(port.as_str());
    url.append("/");
    url.append(path);
    url
}

impl PeerRequest {
    /// The method the request is sent with.
    pub fn method(&self) -> (method: Method)
        ensures
            method == self@.method(),
    {
        match self {
            PeerRequest::Successor => Method::Get,
            PeerRequest::ClosestPreceding { .. } => Method::Get,
            PeerRequest::Predecessor => Method::Get,
            PeerRequest::FingerTable { .. } => Method::Patch,
            PeerRequest::Notify { .. } => Method::Patch,
            PeerRequest::Key { .. } => Method::Post,
            PeerRequest::Replica { .. } => Method::Post,
            PeerRequest::HasKey { .. } => Method::Get,
        }
    }

    /// The path the request is sent to, without the leading slash.
    pub fn path(&self) -> (path: String)
        ensures
            path@ == self@.path(),
    {
        match self {
            PeerRequest::Successor => String::from_str("successor/"),
            PeerRequest::ClosestPreceding { id } => {
                let mut path = String::from_str("successor/cpf/");
                let id_text = decimal_text(*id);
                path.append(id_text.as_str());
                path.append("/");
                path
            },
            PeerRequest::Predecessor => String::from_str("predecessor/"),
            PeerRequest::FingerTable { .. } => String::from_str("fingertable/"),
            PeerRequest::Notify { .. } => String::from_str("notify/"),
            PeerRequest::Key { .. } => String::from_str("key/"),
            PeerRequest::Replica { .. } => String::from_str("replica/"),
            PeerRequest::HasKey { key } => {
                let mut path = String::from_str("key/");
                path.append(key.as_str());
                path
            },
        }
    }

    /// The address of the request on the node `addr`.
    pub fn url(&self, addr: &str) -> (url: String)
        ensures
            url@ == peer_url_text(addr@, self@.path()),
    {
        let path = self.path();
        peer_url(addr, path.as_str())
    }

    /// The fields of the form the request carries; none for a `GET`.
    pub fn form(&self) -> (fields: Vec<(String, String)>)
        ensures
            crate::forms::pair_texts(fields@) == self@.form(),
    {
        let mut fields: Vec<(String, String)> = Vec::new();
        match self {
            PeerRequest::FingerTable { n, i } => {
                fields.push((String::from_str("n"), n.clone()));
                fields.push((String::from_str("i"), decimal_text(*i)));
            },
            PeerRequest::Notify { n } => {
                fields.push((String::from_str("n"), n.clone()));
            },
            PeerRequest::Key { key } => {
                fields.push((String::from_str("key"), key.clone()));
            },
            PeerRequest::Replica { key } => {
                fields.push((String::from_str("key"), key.clone()));
            },
            _ => {},
        }
        assert(crate::forms::pair_texts(fields@) =~= self@.form());
        fields
    }
}

/// What came back from a peer.
pub enum Reply {
    /// Nothing: the peer could not be reached in time.
    Unreachable,
    /// A response with its status code and body.
    Answer { status: u16, body: String },
}

/// Why a request to a peer failed.
#[derive(Debug)]
pub enum PeerError {
    /// The peer could not be reached in time.
    Unreachable,
    /// The peer answered with a status other than 200.
    Rejected { status: u16, message: String },
}

/// The message of the error for a response that is not a success.
pub open spec fn rejection_text(method: Method, body: Seq<char>) -> Seq<char> {
    "Received error from "@ + method.name_text() + " req: "@ + body
}

impl Reply {
    /// Whether the peer is alive: it answered, whatever it said.
    pub fn is_alive(&self) -> (alive: bool)
        ensures
            alive == (self is Answer),
    {
        match self {
            Reply::Answer { .. } => true,
            Reply::Unreachable => false,
        }
    }
}

/// What a reply is worth to the request sent with `method`: the body of a
/// response with status 200, and an error for everything else.
pub fn request_unsuccessful(method: Method, reply: Reply) -> (result: Result<String, PeerError>)
    ensures
        match reply {
            Reply::Unreachable => result matches Err(PeerError::Unreachable),
            Reply::Answer { status, body } => if status == 200 {
                result matches Ok(text) && text@ == body@
            } else {
                result matches Err(PeerError::Rejected { status: s, message }) && s == status
                    && message@ == rejection_text(method, body@)
            },
        },
{
    match reply {
        Reply::Unreachable => Err(PeerError::Unreachable),
        Reply::Answer { status, body } => {
            if status == 200 {
                Ok(body)
            } else {
                let mut message = String::from_str("Received error from ");
                message.append(method.name());
                message.append(" req: ");
                message.append(body.as_str());
                Err(PeerError::Rejected { status, message })
            }
        },
    }
}

impl ChordNode {
    /// Takes in the reply to a request sent with `method`.
    ///
    /// Returns what the reply is worth and, for every reply that is not a
    /// success, the repair of this node's pointers that has to follow.
    pub fn receive(&self, method: Method, reply: Reply) -> (outcome: (
        Result<String, PeerError>,
        Option<Repair>,
    ))
        requires
            self.wf(),
        ensures
            match reply {
                Reply::Unreachable => outcome.0 matches Err(PeerError::Unreachable),
                Reply::Answer { status, body } => if status == 200 {
                    outcome.0 matches Ok(text) && text@ == body@
                } else {
                    outcome.0 matches Err(PeerError::Rejected { status: s, message }) && s
                        == status && message@ == rejection_text(method, body@)
                },
            },
            match outcome.1 {
                Some(repair) => outcome.0 is Err && repair@ == RepairView::begin(self@)
                    && repair@.wf(),
                None => outcome.0 is Ok,
            },
    {
        let result = request_unsuccessful(method, reply);
        let repair = match &result {
            Ok(_) => None,
            Err(_) => Some(self.handle_failure()),
        };
        (result, repair)
    }
}

} // verus!
