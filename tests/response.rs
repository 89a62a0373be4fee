use exo_core::response::{document_enforcement, TrustedDocumentEnforcement};
use exo_core::response::{render_data_response, render_error_response, response_headers, QueryResponse, QueryResponseBody};

fn part(name: &str, body: QueryResponseBody, headers: Vec<(&str, &str)>) -> (String, QueryResponse) {
    let headers = headers.into_iter().map(|(k, v)| (k.to_string(), v.to_string())).collect();
    (name.to_string(), QueryResponse { body, headers })
}

#[test]
fn headers_of_all_operations_in_order() {
    let parts = vec![
        part("a", QueryResponseBody::Raw(None), vec![("Set-Cookie", "x=1"), ("X-A", "1")]),
        part("b", QueryResponseBody::Raw(None), vec![]),
        part("c", QueryResponseBody::Raw(None), vec![("X-C", "3")]),
    ];
    let expected: Vec<(String, String)> = vec![("Set-Cookie", "x=1"), ("X-A", "1"), ("X-C", "3")]
        .into_iter()
        .map(|(k, v)| (k.to_string(), v.to_string()))
        .collect();
    assert_eq!(response_headers(&parts), expected);
    assert!(response_headers(&vec![]).is_empty());
}

#[test]
fn data_response_keeps_operation_order() {
    let parts = vec![
        part("concerts", QueryResponseBody::Raw(Some("[]".to_string())), vec![]),
        part("venue", QueryResponseBody::Raw(None), vec![]),
        part("custom", QueryResponseBody::Json("{\"a\":1}".to_string()), vec![]),
    ];
    assert_eq!(render_data_response(&parts), "{\"data\": {\"concerts\":[], \"venue\":null, \"custom\":{\"a\":1}}}");
}

#[test]
fn empty_data_response() {
    assert_eq!(render_data_response(&vec![]), "{\"data\": {}}");
}

#[test]
fn error_response_with_locations() {
    let positions = vec![(1, 5), (12, 3)];
    assert_eq!(
        render_error_response("bad \"thing\"\nhere", Some(&positions)),
        "{\"errors\": [{\"message\":\"bad thing; here\", \"locations\": [{\"line\": 1, \"column\": 5}, {\"line\": 12, \"column\": 3}]}]}"
    );
}

#[test]
fn error_response_without_locations() {
    assert_eq!(render_error_response("Not authorized", None), "{\"errors\": [{\"message\":\"Not authorized\"}]}");
}

#[test]
fn playground_skips_trusted_documents_outside_production() {
    assert_eq!(document_enforcement(true, false), TrustedDocumentEnforcement::DoNotEnforce);
    assert_eq!(document_enforcement(true, true), TrustedDocumentEnforcement::Enforce);
    assert_eq!(document_enforcement(false, false), TrustedDocumentEnforcement::Enforce);
}
