use ghcr_cleaner::client::{
    check_list_status, delete_version_url, list_versions_url, InvalidHeader, PackageOwner,
    RequestHeaders,
};
use ghcr_cleaner::error::{CleanupError, ClientError};
use ghcr_cleaner::text::u64_to_decimal;

#[test]
fn decimal_text_of_numbers() {
    assert_eq!(u64_to_decimal(0), "0");
    assert_eq!(u64_to_decimal(7), "7");
    assert_eq!(u64_to_decimal(9), "9");
    assert_eq!(u64_to_decimal(10), "10");
    assert_eq!(u64_to_decimal(404), "404");
    assert_eq!(u64_to_decimal(1234567890), "1234567890");
    assert_eq!(u64_to_decimal(u64::MAX), "18446744073709551615");
}

#[test]
fn list_url_names_owner_package_and_page() {
    let user = PackageOwner::User("alice".to_string());
    assert_eq!(
        list_versions_url(&user, "my-package", Some(3)),
        "https://api.github.com/users/alice/packages/container/my-package/versions?page=3"
    );
    let org = PackageOwner::Organizaion("acme".to_string());
    assert_eq!(
        list_versions_url(&org, "tool", Some(12)),
        "https://api.github.com/orgs/acme/packages/container/tool/versions?page=12"
    );
}

#[test]
fn list_url_defaults_to_the_first_page() {
    let user = PackageOwner::User("alice".to_string());
    assert_eq!(
        list_versions_url(&user, "my-package", None),
        "https://api.github.com/users/alice/packages/container/my-package/versions?page=1"
    );
}

#[test]
fn delete_url_names_the_version() {
    let org = PackageOwner::Organizaion("acme".to_string());
    assert_eq!(
        delete_version_url(&org, "tool", "4711"),
        "https://api.github.com/orgs/acme/packages/container/tool/versions/4711"
    );
    let user = PackageOwner::User("alice".to_string());
    assert_eq!(
        delete_version_url(&user, "my-package", "2"),
        "https://api.github.com/users/alice/packages/container/my-package/versions/2"
    );
}

#[test]
fn headers_carry_token_and_agent() {
    let headers = RequestHeaders::new("s3cr3t", "cleaner", "1.2.3").unwrap();
    assert_eq!(headers.accept, "application/vnd.github.v3+json");
    assert_eq!(headers.authorization, "Bearer s3cr3t");
    assert_eq!(headers.user_agent, "cleaner/1.2.3");
}

#[test]
fn headers_go_on_the_wire_under_their_names() {
    let headers = RequestHeaders::new("s3cr3t", "cleaner", "1.2.3").unwrap();
    assert_eq!(
        headers.entries(),
        vec![
            ("Accept".to_string(), "application/vnd.github.v3+json".to_string()),
            ("Authorization".to_string(), "Bearer s3cr3t".to_string()),
            ("User-Agent".to_string(), "cleaner/1.2.3".to_string()),
        ]
    );
}

#[test]
fn headers_take_tabs_and_text_beyond_ascii() {
    let headers = RequestHeaders::new("a\tb", "nettoyeur-\u{e9}", "1").unwrap();
    assert_eq!(headers.authorization, "Bearer a\tb");
    assert_eq!(headers.user_agent, "nettoyeur-\u{e9}/1");
}

#[test]
fn token_with_a_line_break_is_refused() {
    assert_eq!(
        RequestHeaders::new("s3cr3t\n", "cleaner", "1.2.3"),
        Err(InvalidHeader::Authorization)
    );
    assert_eq!(
        RequestHeaders::new("a\rb", "cleaner", "1.2.3"),
        Err(InvalidHeader::Authorization)
    );
    assert_eq!(
        RequestHeaders::new("a\u{7f}b", "cleaner", "1.2.3"),
        Err(InvalidHeader::Authorization)
    );
    assert_eq!(
        RequestHeaders::new("\u{0}", "cleaner", "1.2.3"),
        Err(InvalidHeader::Authorization)
    );
}

#[test]
fn agent_with_a_control_character_is_refused() {
    assert_eq!(
        RequestHeaders::new("s3cr3t", "clea\u{1b}ner", "1.2.3"),
        Err(InvalidHeader::UserAgent)
    );
    assert_eq!(
        RequestHeaders::new("s3cr3t", "cleaner", "1.2\n"),
        Err(InvalidHeader::UserAgent)
    );
    assert_eq!(
        RequestHeaders::new("bad\n", "bad\n", "1"),
        Err(InvalidHeader::Authorization)
    );
}

#[test]
fn status_404_means_the_package_is_missing() {
    let org = PackageOwner::Organizaion("acme".to_string());
    assert_eq!(
        check_list_status(404, &org, "tool"),
        Err(ClientError::NotFound { owner: "acme".to_string(), package: "tool".to_string() })
    );
}

#[test]
fn status_outside_2xx_is_a_failure() {
    let user = PackageOwner::User("alice".to_string());
    for status in [100, 199, 300, 301, 400, 401, 403, 500, 502, 599] {
        assert_eq!(check_list_status(status, &user, "tool"), Err(ClientError::Status(status)));
    }
}

#[test]
fn status_in_2xx_is_success() {
    let user = PackageOwner::User("alice".to_string());
    for status in [200, 201, 204, 299] {
        assert_eq!(check_list_status(status, &user, "tool"), Ok(()));
    }
}

#[test]
fn client_errors_describe_themselves() {
    assert_eq!(
        ClientError::Transport("timed out".to_string()).message(),
        "Failed to send request: timed out"
    );
    assert_eq!(
        ClientError::NotFound { owner: "acme".to_string(), package: "tool".to_string() }.message(),
        "Package acme/tool does not exist"
    );
    assert_eq!(ClientError::Status(503).message(), "Server returned status 503");
    assert_eq!(
        ClientError::Decode("expected a list".to_string()).message(),
        "Failed to parse reply as json: expected a list"
    );
}

#[test]
fn cleanup_errors_describe_themselves() {
    assert_eq!(
        CleanupError::ListFailed { page: 2, cause: ClientError::Status(500) }.message(),
        "Failed to get package versions from github: Server returned status 500"
    );
    assert_eq!(
        CleanupError::PageLimit.message(),
        "Failed to get package versions from github: no page number is left"
    );
}
