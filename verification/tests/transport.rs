use deitos_upload::upload::{
    authorization_header, expiration_for, file_name_from, get_file_name, upload_endpoint,
    upload_outcome, FileNameError, UploadError, JWT_TTL,
};
use std::path::Path;

#[test]
fn ttl_is_24_hours_in_milliseconds() {
    assert_eq!(JWT_TTL, 86_400_000);
    assert_eq!(JWT_TTL, 24 * 60 * 60 * 1000);
}

#[test]
fn expiration_is_one_ttl_after_issue() {
    assert_eq!(expiration_for(0), Some(86_400_000));
    assert_eq!(expiration_for(1_700_000_000_000), Some(1_700_086_400_000));
    let issued = 1_234_567;
    assert_eq!(expiration_for(issued).unwrap() - issued, JWT_TTL);
}

#[test]
fn expiration_past_the_last_timestamp_is_none() {
    assert_eq!(expiration_for(u64::MAX - 86_400_000), Some(u64::MAX));
    assert_eq!(expiration_for(u64::MAX - 86_399_999), None);
    assert_eq!(expiration_for(u64::MAX), None);
}

#[test]
fn authorization_header_presents_a_bearer_credential() {
    assert_eq!(authorization_header("a.b.c"), "Bearer a.b.c");
    assert_eq!(authorization_header(""), "Bearer ");
}

#[test]
fn endpoint_is_the_base_address_followed_by_v1_files() {
    assert_eq!(
        upload_endpoint("http://localhost:9090"),
        Some("http://localhost:9090/v1/files".to_string())
    );
    assert_eq!(
        upload_endpoint("http://host:9000/api"),
        Some("http://host:9000/api/v1/files".to_string())
    );
    assert_eq!(
        upload_endpoint("https://provider.example/some/base"),
        Some("https://provider.example/some/base/v1/files".to_string())
    );
}

#[test]
fn endpoint_of_an_invalid_address_is_none() {
    assert_eq!(upload_endpoint("not an address"), None);
    assert_eq!(upload_endpoint(""), None);
    assert_eq!(upload_endpoint("/v1/files"), None);
    assert_eq!(upload_endpoint("localhost"), None);
}

#[test]
fn status_200_is_success() {
    assert_eq!(upload_outcome(200, "stored".to_string()), Ok(()));
}

#[test]
fn status_413_fails_with_the_body_as_it_came() {
    assert_eq!(
        upload_outcome(413, "file too large: limit is 10 MiB\n".to_string()),
        Err(UploadError::Upload { status: 413, body: "file too large: limit is 10 MiB\n".to_string() })
    );
}

#[test]
fn other_success_statuses_are_failures_too() {
    assert_eq!(
        upload_outcome(201, String::new()),
        Err(UploadError::Upload { status: 201, body: String::new() })
    );
    assert_eq!(
        upload_outcome(500, "oops".to_string()),
        Err(UploadError::Upload { status: 500, body: "oops".to_string() })
    );
}

#[test]
fn file_name_is_the_final_component() {
    assert_eq!(get_file_name(Path::new("tmp/foo.txt")), Ok("foo.txt".to_string()));
    assert_eq!(get_file_name(Path::new("/usr/bin/")), Ok("bin".to_string()));
    assert_eq!(get_file_name(Path::new("foo.txt/.")), Ok("foo.txt".to_string()));
    assert_eq!(get_file_name(Path::new("report.pdf")), Ok("report.pdf".to_string()));
}

#[test]
fn path_without_final_component_has_no_file_name() {
    assert_eq!(get_file_name(Path::new("foo.txt/..")), Err(FileNameError::Missing));
    assert_eq!(get_file_name(Path::new("/")), Err(FileNameError::Missing));
    assert_eq!(get_file_name(Path::new("")), Err(FileNameError::Missing));
}

#[test]
fn file_name_from_tells_the_two_failures_apart() {
    assert_eq!(file_name_from(None), Err(FileNameError::Missing));
    assert_eq!(file_name_from(Some(None)), Err(FileNameError::NotUnicode));
    assert_eq!(file_name_from(Some(Some("a.txt".to_string()))), Ok("a.txt".to_string()));
}

#[test]
fn one_path_gives_one_file_name() {
    for text in ["tmp/foo.txt", "/usr/bin/", "report.pdf", "foo.txt/..", "/", ""] {
        let path = Path::new(text);
        assert_eq!(get_file_name(path), get_file_name(path));
    }
    assert_ne!(get_file_name(Path::new("a/b.txt")), get_file_name(Path::new("a/c.txt")));
}
