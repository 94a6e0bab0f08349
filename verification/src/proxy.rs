//! What the proxy does with the first bytes a client sends: it reads the
//! HTTP request head, tunnels `CONNECT` requests and forwards any other
//! request to the host its `Host` header names.
use vstd::prelude::*;
use vstd::string::*;
use vstd::utf8::*;

verus! {

/// One header of a request: its name and its raw value.
pub struct Header {
    pub name: Vec<u8>,
    pub value: Vec<u8>,
}

impl View for Header {
    type V = (Seq<u8>, Seq<u8>);

    open spec fn view(&self) -> (Seq<u8>, Seq<u8>) {
        (self.name@, self.value@)
    }
}

/// The head of a complete HTTP request: its method and its headers, in order.
pub struct RequestHead {
    pub method: Option<Vec<u8>>,
    pub headers: Vec<Header>,
}

/// The method (if any) and the headers of a request head, as values.
pub type HeadView = (Option<Seq<u8>>, Seq<(Seq<u8>, Seq<u8>)>);

impl View for RequestHead {
    type V = HeadView;

    open spec fn view(&self) -> HeadView {
        (
            match self.method {
                Some(m) => Some(m@),
                None => None,
            },
            self.headers@.map_values(|h: Header| h@),
        )
    }
}

/// What `httparse` makes of a buffer when it reads a request into sixteen
/// header slots: `None` unless the buffer holds a complete request head.
pub uninterp spec fn request_head_of(buf: Seq<u8>) -> Option<HeadView>;

/// A `tchar` of RFC 7230: a letter, a digit or one of ``!#$%&'*+-.^_`|~``.
pub open spec fn is_tchar(b: u8) -> bool {
    ||| 65 <= b <= 90
    ||| 97 <= b <= 122
    ||| 48 <= b <= 57
    ||| b == 33 || b == 35 || b == 36 || b == 37 || b == 38 || b == 39
    ||| b == 42 || b == 43 || b == 45 || b == 46
    ||| b == 94 || b == 95 || b == 96 || b == 124 || b == 126
}

/// A non-empty run of `tchar`s, as HTTP methods are.
pub open spec fn is_token(s: Seq<u8>) -> bool {
    s.len() > 0 && forall|i: int| 0 <= i < s.len() ==> #[trigger] is_tchar(s[i])
}

/// The bytes of `CONNECT`.
pub open spec fn connect_method() -> Seq<u8> {
    seq![67u8, 79u8, 78u8, 78u8, 69u8, 67u8, 84u8]
}

/// The bytes of `Host`, the header name the proxy looks for (case matters).
pub open spec fn host_name() -> Seq<u8> {
    seq![72u8, 111u8, 115u8, 116u8]
}

/// The position of the first header at or after `i` named `Host`.
pub open spec fn host_index_from(hs: Seq<(Seq<u8>, Seq<u8>)>, i: int) -> Option<int>
    decreases hs.len() - i,
{
    if i < 0 || i >= hs.len() {
        None
    } else if hs[i].0 == host_name() {
        Some(i)
    } else {
        host_index_from(hs, i + 1)
    }
}

/// The value of the first header named `Host`.
pub open spec fn host_value(hs: Seq<(Seq<u8>, Seq<u8>)>) -> Option<Seq<u8>> {
    match host_index_from(hs, 0) {
        Some(i) => Some(hs[i].1),
        None => None,
    }
}

/// What the proxy does with a connection.
pub enum ProxyAction {
    /// The bytes read are not a complete request head: drop the connection.
    Ignore,
    /// A `CONNECT` request: answer that the connection is established, then
    /// relay bytes both ways between the client and `target`.
    Tunnel(Vec<u8>),
    /// Any other request: send the bytes read to `target`, then relay bytes
    /// both ways.
    Forward(Vec<u8>),
}

/// A `ProxyAction` as a value.
pub enum ActionView {
    Ignore,
    Tunnel(Seq<u8>),
    Forward(Seq<u8>),
}

impl View for ProxyAction {
    type V = ActionView;

    open spec fn view(&self) -> ActionView {
        match self {
            ProxyAction::Ignore => ActionView::Ignore,
            ProxyAction::Tunnel(t) => ActionView::Tunnel(t@),
            ProxyAction::Forward(t) => ActionView::Forward(t@),
        }
    }
}

/// The action for a complete request head: tunnel to the `Host` when the
/// method is `CONNECT`, forward to it otherwise.
pub open spec fn spec_plan(head: HeadView) -> ActionView {
    let target = host_value(head.1).unwrap();
    if head.0 == Some(connect_method()) {
        ActionView::Tunnel(target)
    } else {
        ActionView::Forward(target)
    }
}

/// The action for what `httparse` made of the bytes read: `Ignore` for an
/// incomplete or invalid head, `None` (no action) for a complete head without
/// a `Host` header, the planned action otherwise.
pub open spec fn spec_route(head: Option<HeadView>) -> Option<ActionView> {
    match head {
        None => Some(ActionView::Ignore),
        Some(h) => if host_value(h.1) is None {
            None
        } else {
            Some(spec_plan(h))
        },
    }
}

/// Reads a request head with `httparse::Request::parse`, with sixteen header
/// slots.
///
/// Trusted: what comes back is named `request_head_of`; a complete head is
/// returned, `Partial` and every parse error give `None`. The httparse source
/// sets the method before it can report `Complete`, and accepts as a method
/// only a non-empty run of RFC 7230 `tchar`s (`parse_method`, `parse_token`,
/// `is_method_token`), which is the second clause.
#[verifier::external_body]
fn parse_request_head(buf: &[u8]) -> (r: Option<RequestHead>)
    ensures
        match r {
            Some(h) => request_head_of(buf@) == Some(h@),
            None => request_head_of(buf@) is None,
        },
        r matches Some(h) ==> (h.method matches Some(m) && is_token(m@)),
{
    let mut headers = [httparse::EMPTY_HEADER; 16];
    let mut req = httparse::Request::new(&mut headers);
    match req.parse(buf) {
        Ok(httparse::Status::Complete(_)) => Some(RequestHead {
            method: req.method.map(|m| m.as_bytes().to_vec()),
            headers: req.headers.iter().map(
                |h| Header { name: h.name.as_bytes().to_vec(), value: h.value.to_vec() },
            ).collect(),
        }),
        Ok(httparse::Status::Partial) => None,
        Err(_) => None,
    }
}

/// Reads a method with `hyper::Method::from_bytes` and compares it with
/// `Method::CONNECT`.
///
/// Trusted: in the `http` source `from_bytes` accepts exactly the non-empty
/// runs of `tchar`s (its `METHOD_CHARS` table), and gives `CONNECT` for the
/// seven bytes `CONNECT` and an extension method for anything else, so the
/// comparison holds exactly for those seven bytes.
#[verifier::external_body]
fn method_is_connect(method: &[u8]) -> (r: bool)
    requires
        is_token(method@),
    ensures
        r == (method@ == connect_method()),
{
    match hyper::Method::from_bytes(method) {
        Ok(m) => m == hyper::Method::CONNECT,
        Err(_) => false,
    }
}

/// The position of the first header named `Host`.
fn find_host(headers: &Vec<Header>) -> (r: Option<usize>)
    ensures
        match r {
            Some(i) => i < headers.len() && host_index_from(
                headers@.map_values(|h: Header| h@),
                0,
            ) == Some(i as int),
            None => host_index_from(headers@.map_values(|h: Header| h@), 0) is None,
        },
{
    let ghost hs = headers@.map_values(|h: Header| h@);
    let mut i: usize = 0;
    while i < headers.len()
        invariant
            i <= headers.len(),
            hs == headers@.map_values(|h: Header| h@),
            host_index_from(hs, 0) == host_index_from(hs, i as int),
        decreases headers.len() - i,
    {
        let name = &headers[i].name;
        let is_host = name.len() == 4 && name[0] == 72 && name[1] == 111 && name[2] == 115
            && name[3] == 116;
        proof {
            assert(hs[i as int].0 == name@);
            if is_host {
                assert(name@ =~= host_name());
            } else {
                assert(name@ != host_name());
            }
        }
        if is_host {
            return Some(i);
        }
        i = i + 1;
    }
    None
}

/// Decides what to do with a complete request head: tunnel to the value of
/// its first `Host` header when the method is `CONNECT`, forward to it
/// otherwise.
pub fn plan_proxy(head: &RequestHead) -> (r: ProxyAction)
    requires
        head.method matches Some(m) && is_token(m@),
        host_value(head@.1) is Some,
    ensures
        r@ == spec_plan(head@),
{
    let i = find_host(&head.headers).unwrap();
    let target = head.headers[i].value.clone();
    let is_connect = match &head.method {
        Some(m) => method_is_connect(m.as_slice()),
        None => false,
    };
    proof {
        assert(head@.1[i as int] == head.headers@[i as int]@);
        assert(target@ == host_value(head@.1).unwrap());
    }
    if is_connect {
        ProxyAction::Tunnel(target)
    } else {
        ProxyAction::Forward(target)
    }
}

/// Decides what to do with the first bytes read from a client: `Ignore` when
/// they are not a complete request head; `None` when the head has no `Host`
/// header (the connection cannot be served); the action of `plan_proxy`
/// otherwise.
pub fn route_request(buf: &[u8]) -> (r: Option<ProxyAction>)
    ensures
        match r {
            Some(a) => spec_route(request_head_of(buf@)) == Some(a@),
            None => spec_route(request_head_of(buf@)) is None,
        },
{
    match parse_request_head(buf) {
        None => Some(ProxyAction::Ignore),
        Some(head) => {
            match find_host(&head.headers) {
                None => None,
                Some(_) => Some(plan_proxy(&head)),
            }
        },
    }
}


/// The bytes `CONNECT`, written out.
proof fn lemma_connect_bytes()
    ensures
        connect_method() == seq![67u8, 79u8, 78u8, 78u8, 69u8, 67u8, 84u8],
        host_name() == seq![72u8, 111u8, 115u8, 116u8],
{
}

proof fn lemma_host_first(hs: Seq<(Seq<u8>, Seq<u8>)>, i: int, k: int)
    requires
        0 <= i <= k < hs.len(),
        hs[k].0 == seq![72u8, 111u8, 115u8, 116u8],
        forall|j: int| i <= j < k ==> #[trigger] hs[j].0 != seq![72u8, 111u8, 115u8, 116u8],
    ensures
        host_index_from(hs, i) == Some(k),
    decreases k - i,
{
    lemma_connect_bytes();
    if i < k {
        lemma_host_first(hs, i + 1, k);
    }
}

proof fn lemma_host_none(hs: Seq<(Seq<u8>, Seq<u8>)>, i: int)
    requires
        0 <= i,
        forall|j: int| i <= j < hs.len() ==> #[trigger] hs[j].0 != seq![72u8, 111u8, 115u8, 116u8],
    ensures
        host_index_from(hs, i) is None,
    decreases hs.len() - i,
{
    lemma_connect_bytes();
    if i < hs.len() {
        lemma_host_none(hs, i + 1);
    }
}

/// The action for a complete head whose first header named `Host` (the bytes
/// `H o s t`, case as written) is at position `k`: a tunnel to that header's
/// value exactly when the method is the seven bytes `CONNECT`, and a forward
/// to it for every other method.
pub proof fn law_plan(method: Seq<u8>, hs: Seq<(Seq<u8>, Seq<u8>)>, k: int)
    requires
        0 <= k < hs.len(),
        hs[k].0 == seq![72u8, 111u8, 115u8, 116u8],
        forall|j: int| 0 <= j < k ==> #[trigger] hs[j].0 != seq![72u8, 111u8, 115u8, 116u8],
    ensures
        spec_plan((Some(method), hs)) == if method == seq![67u8, 79u8, 78u8, 78u8, 69u8, 67u8, 84u8] {
            ActionView::Tunnel(hs[k].1)
        } else {
            ActionView::Forward(hs[k].1)
        },
{
    lemma_connect_bytes();
    lemma_host_first(hs, 0, k);
}

/// Bytes that hold no complete request head are ignored.
pub proof fn law_route_incomplete()
    ensures
        spec_route(None) == Some(ActionView::Ignore),
{
}

/// A complete head with no header named `Host` gets no action, whatever its
/// method and its number of headers.
pub proof fn law_route_without_host(method: Option<Seq<u8>>, hs: Seq<(Seq<u8>, Seq<u8>)>)
    requires
        forall|j: int| 0 <= j < hs.len() ==> #[trigger] hs[j].0 != seq![72u8, 111u8, 115u8, 116u8],
    ensures
        spec_route(Some((method, hs))) is None,
{
    lemma_host_none(hs, 0);
}

/// A complete head whose first header named `Host` is at position `k` is never
/// ignored, whatever its number of headers: it is tunnelled to that header's
/// value when the method is `CONNECT` and forwarded to it otherwise.
pub proof fn law_route_with_host(method: Seq<u8>, hs: Seq<(Seq<u8>, Seq<u8>)>, k: int)
    requires
        0 <= k < hs.len(),
        hs[k].0 == seq![72u8, 111u8, 115u8, 116u8],
        forall|j: int| 0 <= j < k ==> #[trigger] hs[j].0 != seq![72u8, 111u8, 115u8, 116u8],
    ensures
        spec_route(Some((Some(method), hs))) == Some(
            if method == seq![67u8, 79u8, 78u8, 78u8, 69u8, 67u8, 84u8] {
                ActionView::Tunnel(hs[k].1)
            } else {
                ActionView::Forward(hs[k].1)
            },
        ),
{
    lemma_host_first(hs, 0, k);
    law_plan(method, hs, k);
}

/// Reads bytes as UTF-8 text with `std::str::from_utf8`.
///
/// Trusted: std documents that `from_utf8` succeeds exactly on valid UTF-8 and
/// gives the text of those bytes.
#[verifier::external_body]
pub(crate) fn str_from_utf8(bytes: &[u8]) -> (r: Option<&str>)
    ensures
        r is Some <==> valid_utf8(bytes@),
        r matches Some(s) ==> s.spec_bytes() == bytes@,
{
    std::str::from_utf8(bytes).ok()
}

/// The text of a target (a `Host` value) to connect to: `None` when the bytes
/// are not UTF-8, which the connection cannot use.
pub fn target_text(target: &[u8]) -> (r: Option<&str>)
    ensures
        r is Some <==> valid_utf8(target@),
        r matches Some(s) ==> s@ == decode_utf8(target@),
{
    let r = str_from_utf8(target);
    proof {
        broadcast use encode_utf8_decode_utf8;

    }
    r
}

} // verus!
