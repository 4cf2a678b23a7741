use moblink_rust::protocol::{
    calculate_authentication, MessageRequest, MessageRequestData, MessageResponse, MoblinkResult,
    Present, ResponseData, StartTunnelRequest, StartTunnelResponseData, API_VERSION,
};

#[test]
fn authentication_is_two_salted_hashes() {
    assert_eq!(
        calculate_authentication("1234", "salt", "challenge"),
        "2+OoFJ28QK3TmG6nKUHqW7aM+NfAHsqc1EgM78c6Ing="
    );
    assert_eq!(
        calculate_authentication("", "", ""),
        "XEB0z23rR/W2r5xf4+C70OQrlZb+iKxU1ca275h+DyA="
    );
}

#[test]
fn authentication_hashes_the_bytes_of_the_texts() {
    assert_eq!(
        calculate_authentication("p\u{e4}ssword", "s\u{e4}lt", "ch\u{e4}llenge"),
        "q889ZPVuZRZPhR5XZ6Zny2pNi75BmN8VjKQIkRLZWUM="
    );
}

#[test]
fn authentication_is_44_characters_long_and_depends_on_all_three() {
    let answer = calculate_authentication("a", "b", "c");
    assert_eq!(answer.len(), 44);
    assert_ne!(answer, calculate_authentication("x", "b", "c"));
    assert_ne!(answer, calculate_authentication("a", "x", "c"));
    assert_ne!(answer, calculate_authentication("a", "b", "x"));
}

#[test]
fn a_request_is_granted_under_its_number() {
    let request = MessageRequest {
        id: 7,
        data: MessageRequestData::StartTunnel(StartTunnelRequest {
            address: "10.0.0.1".to_string(),
            port: 5000,
        }),
    };
    let data = ResponseData::StartTunnel(StartTunnelResponseData { port: 1234 });
    assert_eq!(
        request.to_ok_response(data),
        MessageResponse { id: 7, result: MoblinkResult::Okay(Present {}), data }
    );
}

#[test]
fn the_api_version_is_one() {
    assert_eq!(API_VERSION, "1.0");
}
