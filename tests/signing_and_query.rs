use capture_rust::query::{decimal_string, number_text, to_query_string, value_text};
use capture_rust::signing::{compose_url, generate_token};
use capture_rust::{
    Capture, CaptureError, CaptureOptions, ContentOptions, FiniteNumber, MetadataOptions, Number, OptionValue,
    PdfOptions, RequestOptions, RequestType, ScreenshotOptions,
};

fn text_of(v: Option<&OptionValue>) -> Option<String> {
    v.and_then(|v| value_text(v))
}

#[test]
fn query_drops_empty_and_non_scalar_values() {
    let mut options = RequestOptions::new();
    options.insert("full".to_string(), OptionValue::Bool(true));
    options.insert("delay".to_string(), OptionValue::Number(Number::PosInt(3)));
    options.insert("format".to_string(), OptionValue::Str("".to_string()));
    options.insert("nested".to_string(), OptionValue::Other);
    assert_eq!(to_query_string(&options), "full=true&delay=3");

    let capture = Capture::new("test_key".to_string(), "test_secret".to_string());
    let url = capture.build_image_url("https://example.com", Some(&options)).unwrap();
    assert!(url.contains("full=true&delay=3"));
    assert!(!url.contains("format="));
    assert!(!url.contains("nested"));
}

#[test]
fn query_of_empty_mapping_is_empty() {
    assert_eq!(to_query_string(&RequestOptions::new()), "");
}

#[test]
fn query_percent_encodes_names_and_values() {
    let mut options = RequestOptions::new();
    options.insert("a b".to_string(), OptionValue::Str("\u{fc}/~-._".to_string()));
    assert_eq!(to_query_string(&options), "a%20b=%C3%BC%2F~-._");
}

#[test]
fn number_texts() {
    assert_eq!(decimal_string(0), "0");
    assert_eq!(decimal_string(1920), "1920");
    assert_eq!(decimal_string(u64::MAX), "18446744073709551615");
    assert_eq!(number_text(&Number::PosInt(3)), "3");
    assert_eq!(number_text(&Number::NegInt(-42)), "-42");
    assert_eq!(number_text(&Number::NegInt(7)), "7");
    assert_eq!(number_text(&Number::NegInt(i64::MIN)), "-9223372036854775808");
    assert_eq!(number_text(&Number::Float(FiniteNumber::from_text("1.5".to_string()).unwrap())), "1.5");
}

#[test]
fn value_texts() {
    assert_eq!(value_text(&OptionValue::Bool(true)), Some("true".to_string()));
    assert_eq!(value_text(&OptionValue::Bool(false)), Some("false".to_string()));
    assert_eq!(value_text(&OptionValue::Str("png".to_string())), Some("png".to_string()));
    assert_eq!(value_text(&OptionValue::Other), None);
}

#[test]
fn token_is_md5_of_secret_and_query() {
    assert_eq!(generate_token("abc", ""), "900150983cd24fb0d6963f7d28e17f72");
    assert_eq!(generate_token("ab", "c"), "900150983cd24fb0d6963f7d28e17f72");
    assert_eq!(generate_token("a", "bc"), generate_token("ab", "c"));
}

#[test]
fn compose_url_lays_out_parts() {
    assert_eq!(
        compose_url(true, "k", "t", RequestType::Animated, "q=1"),
        "https://edge.capture.page/k/t/animated?q=1"
    );
    assert_eq!(
        compose_url(false, "k", "t", RequestType::Pdf, ""),
        "https://cdn.capture.page/k/t/pdf?"
    );
}

#[test]
fn request_type_segments() {
    assert_eq!(RequestType::Image.as_str(), "image");
    assert_eq!(RequestType::Pdf.as_str(), "pdf");
    assert_eq!(RequestType::Content.as_str(), "content");
    assert_eq!(RequestType::Metadata.as_str(), "metadata");
    assert_eq!(RequestType::Animated.as_str(), "animated");
}

#[test]
fn end_to_end_image_url() {
    let capture = Capture::new("test_key".to_string(), "test_secret".to_string());
    let mut options = RequestOptions::new();
    options.insert("full".to_string(), OptionValue::Bool(true));
    options.insert("delay".to_string(), OptionValue::Number(Number::PosInt(3)));
    let url = capture.build_image_url("https://example.com", Some(&options)).unwrap();
    assert_eq!(
        url,
        "https://cdn.capture.page/test_key/f0728ad7105cbc88a421c67679ace8b5/image?full=true&delay=3&url=https%3A%2F%2Fexample.com"
    );
    assert!(url.contains("test_key"));
    assert!(url.contains("image"));
    assert!(url.contains("full=true"));
    assert!(url.contains("delay=3"));
    assert!(url.contains("cdn.capture.page"));
}

#[test]
fn url_without_options() {
    let capture = Capture::new("test_key".to_string(), "test_secret".to_string());
    let url = capture.build_image_url("https://example.com", None).unwrap();
    assert_eq!(
        url,
        "https://cdn.capture.page/test_key/45a53efd248f8e9c303bcfa770b9f28b/image?url=https%3A%2F%2Fexample.com"
    );
}

#[test]
fn target_url_wins_over_url_option() {
    let capture = Capture::new("k".to_string(), "s".to_string());
    let mut options = RequestOptions::new();
    options.insert("url".to_string(), OptionValue::Str("https://other.example".to_string()));
    options.insert("full".to_string(), OptionValue::Bool(true));
    let url = capture.build_pdf_url("https://a.b", Some(&options)).unwrap();
    assert!(url.ends_with("/pdf?url=https%3A%2F%2Fa.b&full=true"));
    assert!(!url.contains("other.example"));
}

#[test]
fn different_secrets_give_different_urls() {
    let a = Capture::new("key".to_string(), "secret1".to_string());
    let b = Capture::new("key".to_string(), "secret2".to_string());
    let ua = a.build_image_url("https://example.com", None).unwrap();
    let ub = b.build_image_url("https://example.com", None).unwrap();
    assert_ne!(ua, ub);
    assert_eq!(ua.split('?').nth(1), ub.split('?').nth(1));
}

#[test]
fn missing_credentials_for_each_empty_part() {
    let no_secret = Capture::new("key".to_string(), "".to_string());
    assert!(matches!(
        no_secret.build_content_url("https://example.com", None),
        Err(CaptureError::MissingCredentials)
    ));
    let no_key = Capture::new("".to_string(), "secret".to_string());
    assert!(matches!(
        no_key.build_animated_url("", None),
        Err(CaptureError::MissingCredentials)
    ));
    assert!(matches!(
        no_key.build_screenshot_url("https://example.com", None),
        Err(CaptureError::MissingCredentials)
    ));
}

#[test]
fn missing_url_on_edge_and_structured() {
    let capture = Capture::new("key".to_string(), "secret".to_string()).with_edge();
    assert!(matches!(
        capture.build_metadata_url("", None),
        Err(CaptureError::MissingUrl)
    ));
    let options = PdfOptions { landscape: Some(true), ..Default::default() };
    assert!(matches!(
        capture.build_pdf_url_structured("", Some(&options)),
        Err(CaptureError::MissingUrl)
    ));
}

#[test]
fn request_options_insert_replaces_in_place() {
    let mut options = RequestOptions::new();
    assert!(options.is_empty());
    options.insert("a".to_string(), OptionValue::Number(Number::PosInt(1)));
    options.insert("b".to_string(), OptionValue::Number(Number::PosInt(2)));
    options.insert("a".to_string(), OptionValue::Str("x".to_string()));
    assert_eq!(options.len(), 2);
    assert_eq!(options.entry(0).0, "a");
    assert_eq!(text_of(options.get("a")), Some("x".to_string()));
    assert_eq!(text_of(options.get("b")), Some("2".to_string()));
    assert!(options.get("c").is_none());
}

#[test]
fn screenshot_options_use_wire_names() {
    let options = ScreenshotOptions {
        vw: Some(1920),
        scale_factor: Some(Number::Float(FiniteNumber::from_text("1.5".to_string()).unwrap())),
        dark_mode: Some(true),
        image_type: Some("png".to_string()),
        block_cookie_banners: Some(false),
        ..Default::default()
    };
    let r = options.to_request_options();
    assert_eq!(
        to_query_string(&r),
        "vw=1920&scaleFactor=1.5&darkMode=true&blockCookieBanners=false&type=png"
    );
}

#[test]
fn additional_options_override_fields() {
    let mut additional = RequestOptions::new();
    additional.insert("vw".to_string(), OptionValue::Str("200".to_string()));
    additional.insert("futureOption".to_string(), OptionValue::Str("x".to_string()));
    let options = ScreenshotOptions {
        vw: Some(100),
        full: Some(true),
        additional_options: Some(additional),
        ..Default::default()
    };
    let first = options.to_request_options();
    let second = options.to_request_options();
    assert_eq!(to_query_string(&first), "vw=200&full=true&futureOption=x");
    assert_eq!(to_query_string(&first), to_query_string(&second));
    assert_eq!(first.entry(0).0, "vw");
    assert_eq!(text_of(first.get("vw")), Some("200".to_string()));
}

#[test]
fn pdf_content_metadata_wire_names() {
    let pdf = PdfOptions {
        format: Some("A4".to_string()),
        margin_top: Some("1cm".to_string()),
        scale: Some(Number::Float(FiniteNumber::from_text("0.5".to_string()).unwrap())),
        delay: Some(2),
        s3_redirect: Some(true),
        ..Default::default()
    };
    assert_eq!(
        to_query_string(&pdf.to_request_options()),
        "format=A4&marginTop=1cm&scale=0.5&delay=2&s3Redirect=true"
    );
    let content = ContentOptions {
        wait_for: Some("#main".to_string()),
        user_agent: Some("bot".to_string()),
        ..Default::default()
    };
    assert_eq!(
        to_query_string(&content.to_request_options()),
        "userAgent=bot&waitFor=%23main"
    );
    let mut additional = RequestOptions::new();
    additional.insert("lang".to_string(), OptionValue::Str("en".to_string()));
    let metadata = MetadataOptions { additional_options: Some(additional) };
    assert_eq!(to_query_string(&metadata.to_request_options()), "lang=en");
    assert!(MetadataOptions::default().to_request_options().is_empty());
}

#[test]
fn structured_builders_match_generic_ones() {
    let capture = Capture::new("k".to_string(), "s".to_string());
    let options = ContentOptions { delay: Some(1), ..Default::default() };
    let structured = capture.build_content_url_structured("https://a.b", Some(&options)).unwrap();
    let generic = capture
        .build_content_url("https://a.b", Some(&options.to_request_options()))
        .unwrap();
    assert_eq!(structured, generic);
    assert!(structured.contains("/content?delay=1&url="));
    let plain = capture.build_screenshot_url("https://a.b", None).unwrap();
    assert_eq!(plain, capture.build_image_url("https://a.b", None).unwrap());
    let meta = capture.build_metadata_url_structured("https://a.b", None).unwrap();
    assert!(meta.contains("/metadata?url="));
}

#[test]
fn builders_keep_credentials_and_settings() {
    let capture = Capture::new("k".to_string(), "s".to_string())
        .with_timeout(std::time::Duration::from_secs(5))
        .with_edge();
    assert_eq!(capture.key(), "k");
    assert_eq!(capture.secret(), "s");
    assert!(capture.options().use_edge);
    assert_eq!(capture.options().timeout, Some(std::time::Duration::from_secs(5)));
    let options = CaptureOptions::new().with_timeout(std::time::Duration::from_secs(2));
    assert!(!options.use_edge);
    assert!(options.client.is_none());
}

#[test]
fn finite_number_texts() {
    for ok in ["1.5", "-1.5e-7", "1e21", "0", "100.0", "1E+5", "-0.25"] {
        let n = FiniteNumber::from_text(ok.to_string()).unwrap();
        assert_eq!(n.as_str(), ok);
    }
    for bad in [
        "NaN", "inf", "-inf", "", "-", "1e", ".5", "1.5x", "1-2", "1..2", "--1", "1e5e5", "01",
        "1.", "+1",
    ] {
        assert!(FiniteNumber::from_text(bad.to_string()).is_none());
    }
}

#[test]
fn token_is_lowercase_hex() {
    let t = generate_token("test_secret", "url=https%3A%2F%2Fexample.com");
    assert_eq!(t.len(), 32);
    assert!(t.chars().all(|c| c.is_ascii_digit() || ('a'..='f').contains(&c)));
}

#[test]
fn supplied_client_is_recorded_and_kept() {
    let capture = Capture::new("k".to_string(), "s".to_string());
    assert!(capture.options().client.is_none());
    let client = capture.http_client().unwrap().clone();
    let capture = capture
        .with_client(client)
        .with_timeout(std::time::Duration::from_secs(3))
        .with_edge();
    assert!(capture.options().client.is_some());
    assert_eq!(capture.options().timeout, Some(std::time::Duration::from_secs(3)));
    assert!(capture.options().use_edge);
    assert_eq!(capture.key(), "k");
}

#[test]
fn animated_and_image_urls_differ_only_in_segment() {
    let capture = Capture::new("k".to_string(), "s".to_string());
    let image = capture.build_image_url("https://a.b", None).unwrap();
    let animated = capture.build_animated_url("https://a.b", None).unwrap();
    assert_eq!(animated, image.replacen("/image?", "/animated?", 1));
}

#[test]
fn cloned_option_set_converts_the_same() {
    let mut additional = RequestOptions::new();
    additional.insert("x".to_string(), OptionValue::Bool(false));
    let options = PdfOptions {
        format: Some("A4".to_string()),
        scale: Some(Number::Float(FiniteNumber::from_text("2".to_string()).unwrap())),
        additional_options: Some(additional),
        ..Default::default()
    };
    let copy = options.clone();
    assert_eq!(
        to_query_string(&copy.to_request_options()),
        to_query_string(&options.to_request_options())
    );
    assert_eq!(to_query_string(&copy.to_request_options()), "format=A4&scale=2&x=false");
}

#[test]
fn capture_options_default_is_new() {
    let d = CaptureOptions::default();
    assert!(!d.use_edge);
    assert!(d.timeout.is_none());
    assert!(d.client.is_none());
}
