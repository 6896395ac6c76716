use opcua_monitor::service_types::register_server_request::{
    ApplicationType, RegisterServerRequest, RegisteredServer, RequestHeader,
};
use opcua_monitor::types::{ExtensionObject, LocalizedText, NodeId, ObjectId};

fn sample_request() -> RegisterServerRequest {
    RegisterServerRequest {
        request_header: RequestHeader {
            authentication_token: NodeId { namespace: 0, value: 0 },
            timestamp: 1_700_000_000_000_000,
            request_handle: 42,
            return_diagnostics: 0,
            audit_entry_id: None,
            timeout_hint: 5_000,
            additional_header: ExtensionObject {
                node_id: NodeId { namespace: 0, value: 0 },
                body: None,
            },
        },
        server: RegisteredServer {
            server_uri: Some(b"urn:example:server".to_vec()),
            product_uri: Some(b"urn:example:product".to_vec()),
            server_names: vec![LocalizedText {
                locale: Some(b"en".to_vec()),
                text: Some(b"Example Server".to_vec()),
            }],
            server_type: ApplicationType::Server,
            gateway_server_uri: None,
            discovery_urls: vec![Some(b"opc.tcp://localhost:4840".to_vec()), None],
            semaphore_file_path: None,
            is_online: true,
        },
    }
}

#[test]
fn register_server_request_round_trips() {
    let request = sample_request();
    let mut bytes = Vec::new();
    let written = request.encode(&mut bytes);
    assert_eq!(written, bytes.len());
    assert_eq!(written, request.byte_len());
    assert_eq!(request.object_id(), ObjectId::RegisterServerRequestEncodingDefaultBinary);

    let mut pos = 0usize;
    let decoded = RegisterServerRequest::decode(&bytes, &mut pos).unwrap();
    assert_eq!(pos, bytes.len());
    assert_eq!(decoded, request);
}

#[test]
fn register_server_request_decode_fails_on_truncation() {
    let request = sample_request();
    let mut bytes = Vec::new();
    let _ = request.encode(&mut bytes);
    bytes.truncate(bytes.len() - 3);
    let mut pos = 0usize;
    assert!(RegisterServerRequest::decode(&bytes, &mut pos).is_err());
}

#[test]
fn localized_text_mask_reflects_presence() {
    // A header-only request exercises the empty localized-text array; here
    // the mask combinations are covered through a full server description.
    let mut server = sample_request().server;
    server.server_names = vec![
        LocalizedText { locale: None, text: None },
        LocalizedText { locale: Some(b"de".to_vec()), text: None },
        LocalizedText { locale: None, text: Some(b"nur Text".to_vec()) },
    ];
    let mut bytes = Vec::new();
    let _ = server.encode(&mut bytes);
    let mut pos = 0usize;
    let decoded = RegisteredServer::decode(&bytes, &mut pos).unwrap();
    assert_eq!(decoded, server);
    assert_eq!(pos, bytes.len());
}

#[test]
fn registered_server_rejects_unknown_application_type() {
    let server = sample_request().server;
    let mut bytes = Vec::new();
    let _ = server.encode(&mut bytes);
    // The application type sits right after the two uris and the one-element
    // name array; corrupt it by finding the encoded value 0 and patching the
    // word that follows the names. Rebuild instead with a direct byte edit:
    // encode a server whose type word is out of range.
    let uri_len = 4 + 18; // "urn:example:server"
    let product_len = 4 + 19; // "urn:example:product"
    let names_len = 4 + 1 + (4 + 2) + (4 + 14); // count + mask + "en" + "Example Server"
    let type_at = uri_len + product_len + names_len;
    bytes[type_at] = 0xee;
    let mut pos = 0usize;
    assert!(RegisteredServer::decode(&bytes, &mut pos).is_err());
}
