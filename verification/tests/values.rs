//! Errors, configuration, times, headers and texts.

use axum::http::{HeaderMap, HeaderValue};
use locally_euclidean::config::{AppConfig, ConfigItems};
use locally_euclidean::errors::{
    ApiError, AppStartupError, BucketError, FileBucketError, FileCreateError, FileOpenError,
    FilePathError, ServiceError,
};
use locally_euclidean::exchange::FileMetadata;
use locally_euclidean::explore::FileHead;
use locally_euclidean::headers::{file_headers, headers};
use locally_euclidean::tasks::{maintenance_step, TaskAction, TaskEvent, INTERVAL_SECS};
use locally_euclidean::text::decimal_text;
use locally_euclidean::time::{
    can_expire, delete_after, has_http_date, http_date, interval_delta, parse_timedelta, parsed_timedelta,
    try_parse_timedelta, TimeDelta, Timestamp,
};

fn s(text: &str) -> String {
    text.to_owned()
}

#[test]
fn api_errors() {
    for (error, status, message) in [
        (ApiError::BucketDoesNotExist(s("b")), 404, "Bucket does not exist: \"b\""),
        (ApiError::InvalidBucketName(s("b\"")), 400, "Invalid bucket name: \"b\\\"\""),
        (ApiError::FileDoesNotExist(s("f")), 404, "File does not exist: \"f\""),
        (ApiError::InvalidFileName(s("f\n")), 400, "Invalid file name: \"f\\n\""),
        (
            ApiError::FileExistsWithConflictingContent,
            409,
            "File already exists with conflicting content",
        ),
        (ApiError::UploadTooLarge, 400, "Upload is larger than the maximum upload size"),
        (
            ApiError::ContentTypeNotPermitted(s("a/b")),
            400,
            "Content-Type may not be uploaded: \"a/b\"",
        ),
        (ApiError::internal(s("oops")), 500, "Internal error: oops"),
    ] {
        assert_eq!(error.status_code(), status);
        assert_eq!(error.message(), message);
    }
}

#[test]
fn open_errors_of_requests() {
    let e = ApiError::from_bucket_open_error("b", FileOpenError::DoesNotExist);
    assert!(matches!(e, ApiError::BucketDoesNotExist(name) if name == "b"));
    let e = ApiError::from_bucket_open_error("b", FileOpenError::InvalidName);
    assert!(matches!(e, ApiError::InvalidBucketName(name) if name == "b"));
    let e = ApiError::from_bucket_open_error("b", FileOpenError::OtherError(s("x")));
    assert!(matches!(e, ApiError::InternalError(e) if e == "Unknown file open error: x"));
    let e = ApiError::from_bucket_file_open_error("f", FileOpenError::DoesNotExist);
    assert!(matches!(e, ApiError::FileDoesNotExist(name) if name == "f"));
    let e = ApiError::from_bucket_file_open_error("f", FileOpenError::InvalidName);
    assert!(matches!(e, ApiError::InvalidFileName(name) if name == "f"));
    let e = ApiError::from_bucket_file_open_error("f", FileOpenError::OtherError(s("x")));
    assert!(matches!(e, ApiError::InternalError(e) if e == "Unknown file open error: x"));
}

#[test]
fn other_errors() {
    assert_eq!(FileOpenError::DoesNotExist.message(), "File does not exist");
    assert_eq!(FileOpenError::InvalidName.message(), "Invalid name");
    assert_eq!(FileCreateError::FileExists.message(), "File exists");
    assert_eq!(FileCreateError::InvalidName.message(), "Invalid name");
    assert_eq!(
        FileOpenError::from(FileBucketError::Openat(s("x"))).message(),
        "Unknown file open error: error calling openat: x"
    );
    assert_eq!(
        FileCreateError::from(FileBucketError::Fstat(s("x"))).message(),
        "Unknown file create error: error calling fstat: x"
    );
    assert_eq!(
        BucketError::QueryFailed(s("select 1"), s("x")).message(),
        "Failed bucket query \"select 1\": x"
    );
    assert_eq!(
        AppStartupError::ConnectToDB(s("x")).message(),
        "Failed to connect to database: x"
    );
    assert_eq!(AppStartupError::Migrate(s("x")).message(), "Failed to run migrations: x");
    assert_eq!(
        FilePathError::DotDot.message(),
        ".. and . components are not allowed in filenames"
    );
    assert_eq!(FilePathError::Absolute.message(), "Absolute paths are not allowed");
    assert_eq!(FilePathError::InvalidChar.message(), "Invalid character in filename");
}

#[test]
fn configuration() {
    let items = |size, types, address| ConfigItems {
        max_upload_size_mb: size,
        allowed_content_types: types,
        bind_address: address,
        db_connection_string: s("postgres:///x"),
    };
    let config = AppConfig::build(Ok(Ok(items(None, None, None)))).unwrap();
    assert_eq!(config.max_upload_size_mb, 100);
    assert_eq!(
        config.allowed_content_types,
        vec!["application/octet-stream", "text/plain", "text/html"]
    );
    assert_eq!(config.bind_address, "[::1]:9000");
    assert_eq!(config.db_connection_string, "postgres:///x");
    assert_eq!(config.max_upload_bytes(), 100_000_000);
    assert!(config.permits("text/html"));
    assert!(!config.permits("text/htm"));

    let config =
        AppConfig::build(Ok(Ok(items(Some(u64::MAX), Some(vec![s("a/b")]), Some(s("[::]:80"))))))
            .unwrap();
    assert_eq!(config.max_upload_bytes(), u128::from(u64::MAX) * 1_000_000);
    assert_eq!(config.bind_address, "[::]:80");
    assert!(config.permits("a/b"));
    assert!(!config.permits("text/plain"));

    assert_eq!(
        AppConfig::build(Err(s("x"))).unwrap_err().message(),
        "Failed to collect config items: x"
    );
    assert_eq!(
        AppConfig::build(Ok(Err(s("x")))).unwrap_err().message(),
        "Failed to deserialize config file: x"
    );

    let config = AppConfig::build_for_test();
    assert_eq!(config.max_upload_size_mb, 5);
    assert_eq!(config.db_connection_string, "");
}

#[test]
fn spans_of_time() {
    let delta = |secs, nanos| TimeDelta { secs, nanos };
    assert_eq!(parse_timedelta("2h 37min").unwrap(), delta(9_420, 0));
    assert_eq!(parse_timedelta("32ms").unwrap(), delta(0, 32_000_000));
    assert_eq!(parse_timedelta("1day").unwrap(), delta(86_400, 0));
    assert_eq!(parse_timedelta("meow").unwrap_err(), "expected number at 0");
    assert!(matches!(try_parse_timedelta("1week"), Some(Ok(d)) if d == delta(604_800, 0)));
    assert!(matches!(try_parse_timedelta(""), Some(Err(_))));
    for (input, secs, nanos) in [
        ("123456789012s", 123_456_789_012, 0),
        ("100000000000ms", 100_000_000, 0),
        ("000000000000000000005 minutes", 300, 0),
        ("1234567890123456789ns", 1_234_567_890, 123_456_789),
        ("1 2 3.5s 000000000001h", 3_723, 500_000_000),
        ("1.5h\u{2003}0.25m", 5_415, 0),
        ("0.000000001s\u{3000}2.5\u{b5}s", 0, 2_501),
        ("9223372036854775us 807000ns", 9_223_372_036, 855_582_000),
        ("9223372036854775s 807ms", 9_223_372_036_854_775, 807_000_000),
    ] {
        let span = try_parse_timedelta(input);
        assert!(matches!(span, Some(Ok(d)) if d == delta(secs, nanos)), "{input}: {span:?}");
    }
    // Numbers and sums that are too large are errors.
    for input in [
        "99999999999999999999s 1ns",
        "18446744073709551615s 1s",
        "18446744073709551615s 2s 1ns",
        "584542046090y 1y 1ms",
        "99999999999999999999ms",
        "18446744073709551615y 1.5s",
        "1ns 18446744073709551614s 1999999999ns",
        "18446744073709551614s 2s 0ms",
        "99999999999999999999ms 18446744073709551615s 1000ms",
        "18446744073709551615ms 18446744073709551615s 1000ms",
        "18446744073709551615.5s 1s",
        "18446744073709551615.5s 0.5m",
        "18446744073709551615s 1000000000ns$",
        "18446744073709551615s 1000000000ns.",
        "18446744073709551615s 1000000000 n s",
        "18446744073709551615s 0.3m 0.7h 1000ms",
        "999999999ns 18446744073709551615ns 18446744073s 709551616s",
        "18446744073709551615s 1000000000.0ns!",
        "1.0ns",
        "1.00000000000000000000s",
        "0.1s 0.00000000001s",
        "1.s",
        "1.5.5s",
        "5 fortnights",
    ] {
        assert!(matches!(try_parse_timedelta(input), Some(Err(_))), "{input}");
    }
    // Longer than a span can be.
    assert!(try_parse_timedelta("99999999999y").is_none());
    assert!(try_parse_timedelta("18446744073709551614s 999999999ns").is_none());
    // Sums that cannot be dealt with.
    assert!(try_parse_timedelta("18446744073709551615s 1000000000ns").is_none());
    assert!(try_parse_timedelta("999ms 18446744073709551615s 1ms").is_none());
    assert!(try_parse_timedelta("18446744073709551615.5s 0.5s").is_none());
    assert!(try_parse_timedelta("18446744073709551615s 1000000000ns $").is_none());

    assert!(matches!(parsed_timedelta(Ok((5, 7))), Some(Ok(d)) if d == delta(5, 7)));
    assert!(matches!(parsed_timedelta(Err(s("x"))), Some(Err(e)) if e == "x"));
    assert!(parsed_timedelta(Ok((u64::MAX, 0))).is_none());

    assert_eq!(interval_delta(1, 1, 1), delta(31 * 86_400, 1_000));
    assert_eq!(interval_delta(0, 0, -1), delta(-1, 999_999_000));
    assert_eq!(interval_delta(-1, 30, 0), delta(0, 0));
    assert_eq!(interval_delta(0, 0, i64::MIN).secs, -9_223_372_036_855);
}

#[test]
fn expiry() {
    let at = |secs| Timestamp { secs, nanos: 0 };
    let delta = |secs| Some(TimeDelta { secs, nanos: 0 });
    assert_eq!(delete_after(at(10), None), None);
    assert_eq!(delete_after(at(10), delta(-20)), Some(at(-10)));
    let last = Timestamp { secs: 8_210_266_876_799, nanos: 0 };
    assert!(can_expire(last, delta(0)));
    assert!(!can_expire(last, delta(1)));
    let first = Timestamp { secs: -8_334_601_228_800, nanos: 0 };
    assert!(can_expire(first, delta(0)));
    assert!(!can_expire(first, delta(-1)));
    assert!(can_expire(last, None));
}

#[test]
fn http_dates() {
    let at = |secs, nanos| Timestamp { secs, nanos };
    assert_eq!(http_date(at(0, 0)), "Thu, 01 Jan 1970 00:00:00 GMT");
    assert_eq!(http_date(at(784_111_777, 999_999_999)), "Sun, 06 Nov 1994 08:49:37 GMT");
    assert_eq!(http_date(at(253_402_300_799, 0)), "Fri, 31 Dec 9999 23:59:59 GMT");
    assert!(has_http_date(at(0, 0)) && has_http_date(at(253_402_300_799, 0)));
    assert!(!has_http_date(at(-1, 999_999_999)) && !has_http_date(at(253_402_300_800, 0)));
}

#[test]
fn decimals() {
    assert_eq!(decimal_text(0), "0");
    assert_eq!(decimal_text(10), "10");
    assert_eq!(decimal_text(u64::MAX), "18446744073709551615");
}

#[test]
fn default_headers() {
    let mut map = HeaderMap::new();
    assert!(headers(&mut map));
    assert_eq!(map.len(), 4);
    assert_eq!(map["x-content-type-options"], "nosniff");
    assert_eq!(map["x-frame-options"], "deny");
    assert_eq!(map["access-control-allow-origin"], "");
    assert_eq!(map["content-security-policy"], "default-src 'none'; sandbox");
    let before = map.clone();
    assert!(headers(&mut map));
    assert_eq!(map, before);
}

#[test]
fn default_headers_give_way() {
    let mut map = HeaderMap::new();
    map.insert("x-frame-options", HeaderValue::from_static("sameorigin"));
    map.append("x-frame-options", HeaderValue::from_static("deny"));
    map.insert("server", HeaderValue::from_static("s"));
    assert!(headers(&mut map));
    assert_eq!(map.len(), 6);
    let all: Vec<_> = map.get_all("x-frame-options").iter().collect();
    assert_eq!(all, vec!["sameorigin", "deny"]);
    assert_eq!(map["server"], "s");
    assert_eq!(map["x-content-type-options"], "nosniff");
}

#[test]
fn default_headers_in_a_full_map() {
    let mut map = HeaderMap::new();
    let mut n = 0;
    while map
        .try_insert(
            axum::http::HeaderName::from_bytes(format!("h{n}").as_bytes()).unwrap(),
            HeaderValue::from_static("v"),
        )
        .is_ok()
    {
        n += 1;
    }
    assert!(n >= 6_000);
    let before = map.clone();
    assert!(!headers(&mut map));
    assert_eq!(map, before);
}

#[test]
fn headers_of_a_file() {
    let head = |content_type: &str| FileHead {
        length: 12_345,
        metadata: FileMetadata {
            last_modified_at: Timestamp { secs: 784_111_777, nanos: 0 },
            content_type: s(content_type),
        },
    };
    let map = file_headers(&head("text/html")).unwrap();
    assert_eq!(map.len(), 3);
    assert_eq!(map["content-length"], "12345");
    assert_eq!(map["content-type"], "text/html");
    assert_eq!(map["last-modified"], "Sun, 06 Nov 1994 08:49:37 GMT");

    let map = file_headers(&head("t\u{e9}\txt")).unwrap();
    assert_eq!(map["content-type"].as_bytes(), "t\u{e9}\txt".as_bytes());
    for bad in ["a\nb", "a\u{7f}", "\0"] {
        let e = file_headers(&head(bad)).unwrap_err();
        assert_eq!(e.message(), "Internal error: failed to parse header value");
    }
}

#[test]
fn maintenance() {
    assert_eq!(INTERVAL_SECS, 120);
    assert!(matches!(
        maintenance_step(TaskEvent::Woken { cancelled: false }),
        TaskAction::DeleteOldFiles
    ));
    assert!(matches!(maintenance_step(TaskEvent::Woken { cancelled: true }), TaskAction::Stop));
    assert!(matches!(maintenance_step(TaskEvent::Deleted(Ok(()))), TaskAction::Wait(None)));
    assert!(matches!(
        maintenance_step(TaskEvent::Deleted(Err(s("x")))),
        TaskAction::Wait(Some(e)) if e == "x"
    ));
}
