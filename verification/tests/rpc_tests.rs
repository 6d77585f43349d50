use lattica::compression::{compress_data, CompressionAlgorithm, CompressionLevel};
use lattica::rpc::{
    answer_request, prepare_request_payload, prepare_response_payload, response_outcome, route_request,
    service_not_found_message, split_method, RpcError, RpcMessage, RpcRequest, RpcResponse,
};

fn request(method: &str, data: Vec<u8>, compression: Option<CompressionAlgorithm>) -> RpcRequest {
    RpcRequest { id: "req-1".to_string(), method: method.to_string(), data, compression }
}

#[test]
fn split_method_needs_exactly_one_dot() {
    assert_eq!(split_method("store.get"), Some(("store".to_string(), "get".to_string())));
    assert_eq!(split_method(".get"), Some(("".to_string(), "get".to_string())));
    assert_eq!(split_method("store."), Some(("store".to_string(), "".to_string())));
    assert_eq!(split_method("store"), None);
    assert_eq!(split_method("a.b.c"), None);
    assert_eq!(split_method(""), None);
}

#[test]
fn route_rejects_malformed_method() {
    match route_request(request("nodot", vec![1], None)) {
        Err(RpcError { id, error }) => {
            assert_eq!(id, "req-1");
            assert_eq!(error, "Invalid method format");
        }
        Ok(_) => panic!("expected an error"),
    }
}

#[test]
fn route_decompresses_payload() {
    let data: Vec<u8> = (0..2000u32).map(|i| (i % 13) as u8).collect();
    let packed = compress_data(&data, CompressionAlgorithm::Gzip, CompressionLevel::Default).unwrap();
    let routed = route_request(request("svc.echo", packed, Some(CompressionAlgorithm::Gzip))).ok().unwrap();
    assert_eq!(routed.service, "svc");
    assert_eq!(routed.method, "echo");
    assert_eq!(routed.request.data, data);
    assert_eq!(routed.request.id, "req-1");
}

#[test]
fn route_reports_undecodable_payload() {
    match route_request(request("svc.echo", vec![9, 9, 9], Some(CompressionAlgorithm::Zstd))) {
        Err(e) => {
            assert_eq!(e.id, "req-1");
            assert!(e.error.starts_with("Failed to decompress request data: "));
        }
        Ok(_) => panic!("expected an error"),
    }
}

#[test]
fn service_not_found_text() {
    assert_eq!(service_not_found_message("kv"), "Service kv not found");
}

#[test]
fn response_payload_compressed_only_when_large() {
    let small = vec![7u8; 10];
    assert_eq!(prepare_response_payload(small.clone(), None, CompressionAlgorithm::Gzip, CompressionLevel::Default), (small, None));
    let big: Vec<u8> = vec![7u8; 4096];
    let (out, tag) = prepare_response_payload(big.clone(), None, CompressionAlgorithm::Lz4, CompressionLevel::Default);
    assert_eq!(tag, Some(CompressionAlgorithm::Lz4));
    assert!(out.len() < big.len());
    assert_eq!(prepare_request_payload(out, tag).unwrap(), big);
    let (same, none) = prepare_response_payload(big.clone(), None, CompressionAlgorithm::NoCompression, CompressionLevel::Default);
    assert_eq!((same, none), (big, None));
}

#[test]
fn answers_carry_response_or_error() {
    let ok = answer_request(
        "req-9".to_string(),
        Ok(RpcResponse { id: "resp".to_string(), data: vec![1, 2], compression: None }),
        CompressionAlgorithm::Gzip,
        CompressionLevel::Default,
    );
    match ok {
        RpcMessage::Response(r) => {
            assert_eq!(r.id, "resp");
            assert_eq!(r.data, vec![1, 2]);
            assert_eq!(r.compression, None);
        }
        _ => panic!("expected a response"),
    }
    match answer_request("req-9".to_string(), Err("boom".to_string()), CompressionAlgorithm::Gzip, CompressionLevel::Default) {
        RpcMessage::Error(e) => {
            assert_eq!(e.id, "req-9");
            assert_eq!(e.error, "boom");
        }
        _ => panic!("expected an error"),
    }
}

#[test]
fn caller_reads_answers() {
    let r = response_outcome(RpcMessage::Response(RpcResponse { id: "a".to_string(), data: vec![3], compression: None })).unwrap();
    assert_eq!(r.data, vec![3]);
    assert_eq!(response_outcome(RpcMessage::Error(RpcError { id: "a".to_string(), error: "bad".to_string() })).unwrap_err(), "bad");
    assert_eq!(response_outcome(RpcMessage::Request(request("a.b", vec![], None))).unwrap_err(), "Unexpected response type");
}
