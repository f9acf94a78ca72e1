use wallpapy::client::networking::{
    add_comment, database_outcome, edit_styles, endpoint_url, generate_wallpaper, get_database,
    like_image, login, query_prompt, recreate_image, remove_comment, remove_image, text_outcome,
    unit_outcome, NetError, RequestBody,
};
use wallpapy::common::{Database, LikedState, StyleVariant};

#[test]
fn endpoint_url_joins_host_and_endpoint() {
    assert_eq!(endpoint_url("localhost:8080", "get"), "http://localhost:8080/get");
}

#[test]
fn login_posts_credentials() {
    let req = login("example.org", "alice", "hunter22");
    assert_eq!(req.url, "http://example.org/login");
    match req.body {
        Some(RequestBody::Login(p)) => {
            assert_eq!(p.username, "alice");
            assert_eq!(p.password, "hunter22");
        }
        _ => panic!("login must post a login packet"),
    }
}

#[test]
fn query_prompt_posts_token() {
    let req = query_prompt("h", "tok");
    assert_eq!(req.url, "http://h/queryprompt");
    match req.body {
        Some(RequestBody::Token(p)) => assert_eq!(p.token, "tok"),
        _ => panic!("query_prompt must post a token packet"),
    }
}

#[test]
fn generate_wallpaper_posts_message() {
    let req = generate_wallpaper("h", "tok", "a red fox");
    assert_eq!(req.url, "http://h/generate");
    match req.body {
        Some(RequestBody::Text(p)) => {
            assert_eq!(p.token, "tok");
            assert_eq!(p.string, "a red fox");
        }
        _ => panic!("generate must post a text packet"),
    }
}

#[test]
fn add_comment_posts_comment() {
    let req = add_comment("h", "tok", "more blue");
    assert_eq!(req.url, "http://h/commentadd");
    match req.body {
        Some(RequestBody::Text(p)) => assert_eq!(p.string, "more blue"),
        _ => panic!("commentadd must post a text packet"),
    }
}

#[test]
fn record_requests_carry_the_identifier() {
    let cases = [
        (remove_comment("h", "t", 7), "http://h/commentremove"),
        (remove_image("h", "t", 8), "http://h/imageremove"),
        (recreate_image("h", "t", 9), "http://h/imagerecreate"),
    ];
    let mut expected_id = 7u128;
    for (req, url) in cases {
        assert_eq!(req.url, url);
        match req.body {
            Some(RequestBody::Record(p)) => {
                assert_eq!(p.token, "t");
                assert_eq!(p.uuid, expected_id);
            }
            _ => panic!("record request must post a record packet"),
        }
        expected_id += 1;
    }
}

#[test]
fn like_image_posts_rating() {
    let req = like_image("h", "t", 42, LikedState::Loved);
    assert_eq!(req.url, "http://h/imageliked");
    match req.body {
        Some(RequestBody::Rating(p)) => {
            assert_eq!(p.uuid, 42);
            assert_eq!(p.liked, LikedState::Loved);
        }
        _ => panic!("imageliked must post a rating packet"),
    }
}

#[test]
fn edit_styles_posts_variant_and_text() {
    let req = edit_styles("h", "t", StyleVariant::Contents, "oceans");
    assert_eq!(req.url, "http://h/styles");
    match req.body {
        Some(RequestBody::Style(p)) => {
            assert_eq!(p.variant, StyleVariant::Contents);
            assert_eq!(p.string, "oceans");
        }
        _ => panic!("styles must post a style packet"),
    }
}

#[test]
fn get_database_is_a_get() {
    let req = get_database("h");
    assert_eq!(req.url, "http://h/get");
    assert!(req.body.is_none());
}

#[test]
fn unit_outcome_accepts_only_200() {
    assert!(unit_outcome(200, None).is_ok());
    match unit_outcome(500, Some("boom".to_string())) {
        Err(NetError::BadStatus { status, text }) => {
            assert_eq!(status, 500);
            assert_eq!(text, "boom");
        }
        _ => panic!("a 500 is a bad status"),
    }
}

#[test]
fn text_outcome_reads_text_or_reports() {
    assert_eq!(text_outcome(200, Some("tok".to_string())).ok(), Some("tok".to_string()));
    assert!(matches!(text_outcome(200, None), Err(NetError::MissingText)));
    match text_outcome(404, None) {
        Err(NetError::BadStatus { status, text }) => {
            assert_eq!(status, 404);
            assert_eq!(text, "");
        }
        _ => panic!("a 404 is a bad status"),
    }
}

#[test]
fn database_outcome_needs_a_decoded_database() {
    assert!(database_outcome(200, None, Some(Database::default())).is_ok());
    assert!(matches!(database_outcome(200, None, None), Err(NetError::Undecodable)));
    assert!(matches!(
        database_outcome(403, Some("no".to_string()), Some(Database::default())),
        Err(NetError::BadStatus { status: 403, .. })
    ));
}

#[test]
fn net_error_messages() {
    let bad = NetError::BadStatus { status: 502, text: "gateway".to_string() };
    assert_eq!(bad.message(), "Bad status 502: gateway");
    let net = NetError::Network { reason: "refused".to_string() };
    assert_eq!(net.message(), "Network error: refused");
    assert_eq!(NetError::MissingText.message(), "Failed to extract text");
    assert_eq!(NetError::Undecodable.message(), "Failed to decode database");
}
