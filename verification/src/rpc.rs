//! Remote procedure calls between peers: the messages, the routing of a
//! method name to a service, the framing of stream messages, the splitting
//! of large responses into chunks, and payload compression on both sides.

use vstd::prelude::*;
use crate::compression::{
    CompressionAlgorithm, CompressionLevel, compress_data, compresses, compressed, decompress_data,
    decompressed, outcome_view,
};

verus! {

/// A call of `method` (written `service.method`) with its payload.
#[derive(Debug)]
pub struct RpcRequest {
    pub id: String,
    pub method: String,
    pub data: Vec<u8>,
    pub compression: Option<CompressionAlgorithm>,
}

/// A successful answer to a call.
#[derive(Debug)]
pub struct RpcResponse {
    pub id: String,
    pub data: Vec<u8>,
    pub compression: Option<CompressionAlgorithm>,
}

/// A failed call: the request's id and what went wrong.
#[derive(Debug)]
pub struct RpcError {
    pub id: String,
    pub error: String,
}

/// A message of the request/response protocol.
#[derive(Debug)]
pub enum RpcMessage {
    Request(RpcRequest),
    Response(RpcResponse),
    Error(RpcError),
}

/// `s` has exactly one `.`, at position `i`.
pub open spec fn single_dot_at(s: Seq<char>, i: int) -> bool {
    &&& 0 <= i < s.len()
    &&& s[i] == '.'
    &&& forall|j: int| 0 <= j < s.len() && j != i ==> s[j] != '.'
}

/// A method name written as `service.method`, with no dot in either part,
/// splits back into the two parts.
pub proof fn lemma_method_name_roundtrip(service: Seq<char>, method: Seq<char>)
    requires
        forall|i: int| 0 <= i < service.len() ==> service[i] != '.',
        forall|i: int| 0 <= i < method.len() ==> method[i] != '.',
    ensures
        single_dot_at(service + "."@ + method, service.len() as int),
        (service + "."@ + method).subrange(0, service.len() as int) == service,
        (service + "."@ + method).subrange(service.len() as int + 1, (service + "."@ + method).len() as int) == method,
{
    let full = service + "."@ + method;
    reveal_strlit(".");
    assert(full[service.len() as int] == '.');
    assert forall|j: int| 0 <= j < full.len() && j != service.len() implies full[j] != '.' by {
        if j < service.len() {
            assert(full[j] == service[j]);
        } else {
            assert(full[j] == method[j - service.len() - 1]);
        }
    }
    assert(full.subrange(0, service.len() as int) =~= service);
    assert(full.subrange(service.len() as int + 1, full.len() as int) =~= method);
}

/// Splits `service.method` at its only dot; a name with no dot or with
/// more than one has no parts.
pub fn split_method(method: &str) -> (r: Option<(String, String)>)
    ensures
        r matches Some((service, name)) ==> exists|i: int|
            single_dot_at(method@, i) && service@ == method@.subrange(0, i) && name@ == method@.subrange(i + 1, method@.len() as int),
        r is None ==> forall|i: int| !single_dot_at(method@, i),
{
    let n = method.unicode_len();
    let mut dots: usize = 0;
    let mut pos: usize = 0;
    let mut i: usize = 0;
    while i < n
        invariant
            n == method@.len(),
            i <= n,
            dots <= i,
            dots == 0 ==> forall|j: int| 0 <= j < i ==> method@[j] != '.',
            dots >= 1 ==> pos < i && method@[pos as int] == '.',
            dots == 1 ==> forall|j: int| 0 <= j < i && j != pos ==> method@[j] != '.',
            dots >= 2 ==> exists|a: int, b: int| 0 <= a < b < i && method@[a] == '.' && method@[b] == '.',
        decreases n - i,
    {
        let c = method.get_char(i);
        if c == '.' {
            if dots == 0 {
                pos = i;
            } else {
                assert(method@[pos as int] == '.' && method@[i as int] == '.');
            }
            dots = dots + 1;
        }
        i = i + 1;
    }
    if dots == 1 {
        let service = method.substring_char(0, pos);
        let name = method.substring_char(pos + 1, n);
        assert(single_dot_at(method@, pos as int));
        Some((String::from_str(service), String::from_str(name)))
    } else {
        assert forall|k: int| !single_dot_at(method@, k) by {
            if dots >= 2 {
                let (a, b) = choose|a: int, b: int| 0 <= a < b < n && method@[a] == '.' && method@[b] == '.';
                if single_dot_at(method@, k) {
                    assert(a == k && b == k);
                }
            }
        }
        None
    }
}

/// The message that answers a call to a service nobody offers.
pub open spec fn service_not_found_text(service: Seq<char>) -> Seq<char> {
    "Service "@ + service + " not found"@
}

/// The message that answers a call whose method is not `service.method`.
pub open spec fn invalid_method_text() -> Seq<char> {
    "Invalid method format"@
}

/// The message that answers a call whose payload could not be decompressed.
pub open spec fn decompress_failure_text(reason: Seq<char>) -> Seq<char> {
    "Failed to decompress request data: "@ + reason
}

/// The error text for a call to a service nobody offers.
pub fn service_not_found_message(service: &str) -> (r: String)
    ensures
        r@ == service_not_found_text(service@),
{
    let mut s = String::from_str("Service ");
    s.append(service);
    s.append(" not found");
    s
}

/// The payload a service receives: the request's payload, decompressed
/// with the algorithm the request names, if it names one.
pub open spec fn request_payload(data: Seq<u8>, compression: Option<CompressionAlgorithm>) -> Result<Seq<u8>, Seq<char>> {
    match compression {
        None => Ok(data),
        Some(a) => match decompressed(data, a) {
            Ok(d) => Ok(d),
            Err(e) => Err(decompress_failure_text(e)),
        },
    }
}

/// The payload and compression tag a response goes out with: compressed
/// with the node's algorithm when the payload is large enough for it and
/// the codec succeeds, else as the service produced it.
pub open spec fn response_payload(
    data: Seq<u8>,
    tag: Option<CompressionAlgorithm>,
    algorithm: CompressionAlgorithm,
    level: CompressionLevel,
) -> (Seq<u8>, Option<CompressionAlgorithm>) {
    if compresses(data.len() as int, algorithm) {
        match compressed(data, algorithm, level) {
            Ok(c) => (c, Some(algorithm)),
            Err(_) => (data, tag),
        }
    } else {
        (data, tag)
    }
}

/// A receiver reads back `x` from `(data, tag)` whenever that is what a
/// sender made of the untagged payload `x`.
pub open spec fn reads_back_sent(data: Seq<u8>, tag: Option<CompressionAlgorithm>, outcome: Result<Seq<u8>, Seq<char>>) -> bool {
    forall|x: Seq<u8>, a: CompressionAlgorithm, l: CompressionLevel|
        #[trigger] response_payload(x, None, a, l) == (data, tag) ==> outcome == Ok::<Seq<u8>, Seq<char>>(x)
}

/// Decompresses a received payload according to its compression tag.
/// Whatever `prepare_response_payload` made of an untagged payload is read
/// back as that payload.
pub fn prepare_request_payload(data: Vec<u8>, compression: Option<CompressionAlgorithm>) -> (r: Result<Vec<u8>, String>)
    ensures
        outcome_view(&r) == request_payload(data@, compression),
        reads_back_sent(data@, compression, outcome_view(&r)),
{
    match compression {
        None => {
            proof {
                assert forall|x: Seq<u8>, a: CompressionAlgorithm, l: CompressionLevel|
                    #[trigger] response_payload(x, None, a, l) == (data@, compression) implies Ok::<Seq<u8>, Seq<char>>(data@)
                        == Ok::<Seq<u8>, Seq<char>>(x) by {
                    if compresses(x.len() as int, a) {
                        match compressed(x, a, l) {
                            Ok(c) => {},
                            Err(_) => {},
                        }
                    }
                }
            }
            Ok(data)
        },
        Some(algorithm) => {
            let out = decompress_data(data.as_slice(), algorithm);
            proof {
                assert forall|x: Seq<u8>, a: CompressionAlgorithm, l: CompressionLevel|
                    #[trigger] response_payload(x, None, a, l) == (data@, compression) implies outcome_view(&out)
                        == Ok::<Seq<u8>, Seq<char>>(x) by {
                    assert(compresses(x.len() as int, a));
                    assert(a == algorithm);
                    assert(compressed(x, algorithm, l) == Ok::<Seq<u8>, Seq<char>>(data@));
                }
            }
            match out {
                Ok(d) => Ok(d),
                Err(e) => {
                    let mut msg = String::from_str("Failed to decompress request data: ");
                    msg.append(e.as_str());
                    Err(msg)
                },
            }
        },
    }
}

/// Compresses an outgoing payload with the node's algorithm when it is
/// large enough; on a codec failure the payload goes out as it was.
/// Returns the payload and its compression tag.
pub fn prepare_response_payload(
    data: Vec<u8>,
    tag: Option<CompressionAlgorithm>,
    algorithm: CompressionAlgorithm,
    level: CompressionLevel,
) -> (r: (Vec<u8>, Option<CompressionAlgorithm>))
    ensures
        (r.0@, r.1) == response_payload(data@, tag, algorithm, level),
{
    if crate::compression::should_compress(data.len(), algorithm) {
        match compress_data(data.as_slice(), algorithm, level) {
            Ok(c) => (c, Some(algorithm)),
            Err(_) => (data, tag),
        }
    } else {
        (data, tag)
    }
}

/// Where a call goes, once its method name is read and its payload decoded.
pub struct RoutedRequest {
    pub service: String,
    pub method: String,
    pub request: RpcRequest,
}

/// Reads an incoming call: splits its method name and decompresses its
/// payload. A malformed name or an undecodable payload is answered with
/// an error message carrying the request's id.
pub fn route_request(req: RpcRequest) -> (r: Result<RoutedRequest, RpcError>)
    ensures
        (forall|i: int| !single_dot_at(req.method@, i)) ==> (r matches Err(e) && e.id@ == req.id@ && e.error@ == invalid_method_text()),
        (exists|i: int| single_dot_at(req.method@, i)) ==> match r {
            Ok(routed) => {
                &&& exists|i: int|
                    single_dot_at(req.method@, i) && routed.service@ == req.method@.subrange(0, i)
                        && routed.method@ == req.method@.subrange(i + 1, req.method@.len() as int)
                &&& request_payload(req.data@, req.compression) == Ok::<Seq<u8>, Seq<char>>(routed.request.data@)
                &&& routed.request.id@ == req.id@
                &&& routed.request.method@ == req.method@
                &&& routed.request.compression == req.compression
            },
            Err(e) => request_payload(req.data@, req.compression) == Err::<Seq<u8>, Seq<char>>(e.error@) && e.id@ == req.id@,
        },
{
    let parts = split_method(req.method.as_str());
    match parts {
        None => {
            Err(RpcError { id: req.id, error: String::from_str("Invalid method format") })
        },
        Some((service, method)) => {
            let RpcRequest { id, method: full, data, compression } = req;
            match prepare_request_payload(data, compression) {
                Ok(d) => Ok(RoutedRequest {
                    service,
                    method,
                    request: RpcRequest { id, method: full, data: d, compression },
                }),
                Err(e) => Err(RpcError { id, error: e }),
            }
        },
    }
}

/// The answer to a call the service handled: its response, compressed for
/// the wire, or the service's error under the request's id.
pub fn answer_request(
    request_id: String,
    outcome: Result<RpcResponse, String>,
    algorithm: CompressionAlgorithm,
    level: CompressionLevel,
) -> (r: RpcMessage)
    ensures
        outcome matches Ok(resp) ==> (r matches RpcMessage::Response(out) && out.id@ == resp.id@
            && (out.data@, out.compression) == response_payload(resp.data@, resp.compression, algorithm, level)),
        outcome matches Err(e) ==> (r matches RpcMessage::Error(err) && err.id@ == request_id@ && err.error@ == e@),
{
    match outcome {
        Ok(resp) => {
            let RpcResponse { id, data, compression } = resp;
            let (data, compression) = prepare_response_payload(data, compression, algorithm, level);
            RpcMessage::Response(RpcResponse { id, data, compression })
        },
        Err(e) => RpcMessage::Error(RpcError { id: request_id, error: e }),
    }
}

/// What a caller makes of the message that answers its request: the
/// response, the error's text, or a complaint about an unexpected message.
pub fn response_outcome(message: RpcMessage) -> (r: Result<RpcResponse, String>)
    ensures
        message matches RpcMessage::Response(resp) ==> (r matches Ok(got) && got.id@ == resp.id@ && got.data@ == resp.data@
            && got.compression == resp.compression),
        message matches RpcMessage::Error(err) ==> (r matches Err(e) && e@ == err.error@),
        message is Request ==> (r matches Err(e) && e@ == "Unexpected response type"@),
{
    match message {
        RpcMessage::Response(resp) => Ok(resp),
        RpcMessage::Error(err) => Err(err.error),
        RpcMessage::Request(_) => Err(String::from_str("Unexpected response type")),
    }
}

} // verus!
