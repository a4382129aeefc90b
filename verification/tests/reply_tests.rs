use mementic::generation::meme_from_reply;
use mementic::model::{MemeData, PythonMetadata};
use mementic::reply::{reply_fields, reply_time_pointer, shape_of_reply, ReplyShape};

#[test]
fn a_nested_reply_is_read_from_its_data_object() {
    let body = r#"{"success":true,"data":{"prompt":"cat","image_url":"https://img/1.png","image_filename":"1.png","image_format":"png","metadata":{"processing_time":2.5,"timestamp":42,"file_size_bytes":900,"service":"gen"}}}"#;
    assert_eq!(shape_of_reply(body, false), ReplyShape::Nested);
    assert_eq!(reply_time_pointer(body), "/data/metadata/processing_time");
    let f = reply_fields(body, None, Some(2.5f64.to_bits())).unwrap();
    assert_eq!(f.prompt.as_deref(), Some("cat"));
    assert_eq!(f.name, None);
    assert_eq!(f.image_url.as_deref(), Some("https://img/1.png"));
    assert_eq!(f.image_filename.as_deref(), Some("1.png"));
    assert_eq!(f.image_format.as_deref(), Some("png"));
    assert_eq!(f.timestamp, Some(42));
    assert_eq!(f.file_size_bytes, Some(900));
    assert_eq!(f.service.as_deref(), Some("gen"));
    assert_eq!(f.processing_time_bits, Some(2.5f64.to_bits()));
}

#[test]
fn a_nested_reply_without_metadata_takes_defaults() {
    let body = r#"{"data":{"image_url":"u"}}"#;
    let f = reply_fields(body, None, None).unwrap();
    let m = meme_from_reply("asked".to_string(), f, 7);
    assert_eq!(m.prompt, "asked");
    assert_eq!(m.image_url, "u");
    assert_eq!(m.image_filename, "generated_meme.png");
    assert_eq!(m.image_format, "png");
    assert_eq!(m.metadata.timestamp, 7);
    assert_eq!(m.metadata.file_size_bytes, 1_024_000);
    assert_eq!(m.metadata.service, "icp-meme-generator");
    assert_eq!(m.metadata.processing_time_bits, 1.0f64.to_bits());
}

#[test]
fn a_complete_meme_is_taken_whole() {
    let body = r#"{"prompt":"dog","name":"Rex","caption":null,"image_url":"https://img/2.png","image_filename":"2.png","image_format":"jpg","metadata":{"processing_time":3,"timestamp":11,"file_size_bytes":12,"service":"svc"}}"#;
    let whole = MemeData {
        prompt: "dog".to_string(),
        name: Some("Rex".to_string()),
        caption: None,
        image_url: "https://img/2.png".to_string(),
        image_filename: "2.png".to_string(),
        image_format: "jpg".to_string(),
        metadata: PythonMetadata {
            processing_time_bits: 3.0f64.to_bits(),
            timestamp: 11,
            file_size_bytes: 12,
            service: "svc".to_string(),
        },
    };
    assert_eq!(shape_of_reply(body, true), ReplyShape::Whole);
    assert_eq!(reply_time_pointer(body), "/processing_time");
    let f = reply_fields(body, Some(whole), None).unwrap();
    assert_eq!(f.prompt.as_deref(), Some("dog"));
    assert_eq!(f.name.as_deref(), Some("Rex"));
    assert_eq!(f.caption, None);
    assert_eq!(f.image_format.as_deref(), Some("jpg"));
    assert_eq!(f.processing_time_bits, Some(3.0f64.to_bits()));
    assert_eq!(f.timestamp, Some(11));
    assert_eq!(f.file_size_bytes, Some(12));
    assert_eq!(f.service.as_deref(), Some("svc"));
}

#[test]
fn a_nested_reply_wins_over_a_complete_meme() {
    let body = r#"{"data":{"prompt":"n"}}"#;
    let whole = MemeData {
        prompt: "w".to_string(),
        name: None,
        caption: None,
        image_url: String::new(),
        image_filename: String::new(),
        image_format: String::new(),
        metadata: PythonMetadata { processing_time_bits: 0, timestamp: 0, file_size_bytes: 0, service: String::new() },
    };
    assert_eq!(shape_of_reply(body, true), ReplyShape::Nested);
    let f = reply_fields(body, Some(whole), None).unwrap();
    assert_eq!(f.prompt.as_deref(), Some("n"));
}

#[test]
fn an_incomplete_meme_is_read_loosely_with_alternative_keys() {
    let body = r#"{"prompt":"owl","url":"https://img/3.png","filename":"3.webp","format":"webp","file_size":77,"timestamp":5}"#;
    assert_eq!(shape_of_reply(body, false), ReplyShape::Loose);
    assert_eq!(reply_time_pointer(body), "/processing_time");
    let f = reply_fields(body, None, None).unwrap();
    assert_eq!(f.prompt.as_deref(), Some("owl"));
    assert_eq!(f.image_url.as_deref(), Some("https://img/3.png"));
    assert_eq!(f.image_filename.as_deref(), Some("3.webp"));
    assert_eq!(f.image_format.as_deref(), Some("webp"));
    assert_eq!(f.file_size_bytes, Some(77));
    assert_eq!(f.timestamp, Some(5));
    assert_eq!(f.service, None);
    assert_eq!(f.name, None);
}

#[test]
fn the_first_key_present_counts_even_when_it_is_not_text() {
    let body = r#"{"image_url":5,"url":"https://img/4.png","image":"https://img/5.png"}"#;
    let f = reply_fields(body, None, None).unwrap();
    assert_eq!(f.image_url, None);
    let body = r#"{"image":"https://img/5.png"}"#;
    let f = reply_fields(body, None, None).unwrap();
    assert_eq!(f.image_url.as_deref(), Some("https://img/5.png"));
}

#[test]
fn a_body_that_is_not_json_is_refused() {
    let e = reply_fields("not json at all", None, None).unwrap_err();
    assert!(e.starts_with("Invalid JSON response: "));
    assert!(e.len() > "Invalid JSON response: ".len());
}
