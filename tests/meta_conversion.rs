use arklib_android::meta::{
    from_java_resource_meta, into_java_resource_meta, FieldType, JavaField, JavaResourceKind,
    JavaResourceMeta, KindCode, MetaError, ResourceId, ResourceKind, ResourceMeta,
};
use arklib_android::time::{Timestamp, MAX_UTC_MILLIS, MIN_UTC_MILLIS};

fn video_meta() -> ResourceMeta {
    ResourceMeta {
        id: ResourceId { file_size: 4096, crc32: 0xdead_beef },
        name: Some("clip".to_string()),
        extension: Some("mp4".to_string()),
        modified: Timestamp::from_millis(1_431_648_000_000).unwrap(),
        kind: Some(ResourceKind::Video { height: Some(1080), width: Some(1920), duration: None }),
    }
}

#[test]
fn timestamp_accepts_epoch_and_rejects_far_future() {
    assert_eq!(Timestamp::from_millis(0).unwrap().millis(), 0);
    assert_eq!(Timestamp::from_millis(-1).unwrap().millis(), -1);
    assert!(Timestamp::from_millis(i64::MAX).is_none());
    assert!(Timestamp::from_millis(i64::MIN).is_none());
}

#[test]
fn timestamp_range_ends_where_chrono_does() {
    assert_eq!(Timestamp::from_millis(MIN_UTC_MILLIS).unwrap().millis(), MIN_UTC_MILLIS);
    assert_eq!(Timestamp::from_millis(MAX_UTC_MILLIS).unwrap().millis(), MAX_UTC_MILLIS);
    assert!(Timestamp::from_millis(MIN_UTC_MILLIS - 1).is_none());
    assert!(Timestamp::from_millis(MAX_UTC_MILLIS + 1).is_none());
}

#[test]
fn kind_codes_parse_by_exact_name() {
    assert_eq!(KindCode::parse("Document"), Some(KindCode::Document));
    assert_eq!(KindCode::parse("Link"), Some(KindCode::Link));
    assert_eq!(KindCode::parse("Video"), Some(KindCode::Video));
    assert_eq!(KindCode::parse("PlainText"), Some(KindCode::PlainText));
    assert_eq!(KindCode::parse("DOCUMENT"), None);
    assert_eq!(KindCode::parse(""), None);
    for code in [KindCode::Document, KindCode::Link, KindCode::Video, KindCode::PlainText] {
        assert_eq!(KindCode::parse(code.name()), Some(code));
    }
}

#[test]
fn kind_classes_and_constructors() {
    assert_eq!(KindCode::Document.class_name(), "space/taran/arklib/index/ResourceKind$Document");
    assert_eq!(KindCode::PlainText.class_name(), "space/taran/arklib/index/ResourceKind$PlainText");
    assert_eq!(KindCode::Document.constructor_signature(), "(Ljava/lang/Long;)V");
    assert_eq!(
        KindCode::Link.constructor_signature(),
        "(Ljava/lang/String;Ljava/lang/String;Ljava/lang/String;)V"
    );
    assert_eq!(KindCode::PlainText.constructor_signature(), "()V");
    assert_eq!(
        KindCode::Video.fields(),
        vec![("height", FieldType::Long), ("width", FieldType::Long), ("duration", FieldType::Long)]
    );
    assert_eq!(
        KindCode::Link.fields(),
        vec![("title", FieldType::Text), ("description", FieldType::Text), ("url", FieldType::Text)]
    );
    assert!(KindCode::PlainText.fields().is_empty());
}

#[test]
fn into_java_carries_every_field() {
    let java = into_java_resource_meta(&video_meta());
    assert_eq!(java.id, 0xdead_beef_i64);
    assert_eq!(java.size, 4096);
    assert_eq!(java.modified, 1_431_648_000_000);
    assert_eq!(java.name, Some("clip".to_string()));
    assert_eq!(java.extension, Some("mp4".to_string()));
    let kind = java.kind.unwrap();
    assert_eq!(kind.code, "Video");
    assert_eq!(
        kind.fields,
        vec![JavaField::Long(Some(1080)), JavaField::Long(Some(1920)), JavaField::Long(None)]
    );
}

#[test]
fn into_java_keeps_absent_values_null() {
    let meta = ResourceMeta {
        id: ResourceId { file_size: u64::MAX, crc32: 7 },
        name: None,
        extension: None,
        modified: Timestamp::from_millis(0).unwrap(),
        kind: None,
    };
    let java = into_java_resource_meta(&meta);
    assert_eq!(java.name, None);
    assert_eq!(java.extension, None);
    assert_eq!(java.size, -1);
    assert_eq!(java.kind, None);
    assert_eq!(from_java_resource_meta(&java), Ok(meta));
}

#[test]
fn round_trip_keeps_absent_fields() {
    let meta = ResourceMeta {
        id: ResourceId { file_size: 1, crc32: 2 },
        name: Some(String::new()),
        extension: None,
        modified: Timestamp::from_millis(-86_400_000).unwrap(),
        kind: Some(ResourceKind::PlainText),
    };
    let java = into_java_resource_meta(&meta);
    assert_eq!(java.kind, Some(JavaResourceKind { code: "PlainText".to_string(), fields: vec![] }));
    assert_eq!(from_java_resource_meta(&java), Ok(meta));
}

#[test]
fn round_trip_keeps_a_full_record() {
    let meta = video_meta();
    assert_eq!(from_java_resource_meta(&into_java_resource_meta(&meta)), Ok(meta));
    let link = ResourceMeta {
        id: ResourceId { file_size: u64::MAX, crc32: u32::MAX },
        name: Some("page".to_string()),
        extension: Some("link".to_string()),
        modified: Timestamp::from_millis(-5).unwrap(),
        kind: Some(ResourceKind::Link {
            title: Some("Title".to_string()),
            description: None,
            url: Some("https://example.org/".to_string()),
        }),
    };
    assert_eq!(from_java_resource_meta(&into_java_resource_meta(&link)), Ok(link));
}

fn java_meta(kind: Option<JavaResourceKind>) -> JavaResourceMeta {
    JavaResourceMeta {
        id: 0x1_0000_0005,
        name: None,
        extension: Some("pdf".to_string()),
        modified: 1000,
        size: -1,
        kind,
    }
}

#[test]
fn from_java_truncates_identity_and_keeps_null_kind() {
    let meta = from_java_resource_meta(&java_meta(None)).unwrap();
    assert_eq!(meta.id, ResourceId { file_size: u64::MAX, crc32: 5 });
    assert_eq!(meta.name, None);
    assert_eq!(meta.extension, Some("pdf".to_string()));
    assert_eq!(meta.modified.millis(), 1000);
    assert_eq!(meta.kind, None);
}

#[test]
fn from_java_reads_document_pages() {
    let kind = JavaResourceKind { code: "Document".to_string(), fields: vec![JavaField::Long(Some(12))] };
    let meta = from_java_resource_meta(&java_meta(Some(kind))).unwrap();
    assert_eq!(meta.kind, Some(ResourceKind::Document { pages: Some(12) }));
}

#[test]
fn from_java_rejects_unknown_kind() {
    let kind = JavaResourceKind { code: "Archive".to_string(), fields: vec![] };
    assert_eq!(from_java_resource_meta(&java_meta(Some(kind))), Err(MetaError::UnknownKind));
}

#[test]
fn from_java_rejects_misshapen_fields() {
    let kind = JavaResourceKind { code: "Document".to_string(), fields: vec![JavaField::Text(None)] };
    assert_eq!(from_java_resource_meta(&java_meta(Some(kind))), Err(MetaError::FieldMismatch));
    let kind = JavaResourceKind { code: "PlainText".to_string(), fields: vec![JavaField::Long(None)] };
    assert_eq!(from_java_resource_meta(&java_meta(Some(kind))), Err(MetaError::FieldMismatch));
    let kind = JavaResourceKind { code: "Video".to_string(), fields: vec![JavaField::Long(None)] };
    assert_eq!(from_java_resource_meta(&java_meta(Some(kind))), Err(MetaError::FieldMismatch));
}

#[test]
fn from_java_rejects_unrepresentable_time() {
    let mut java = java_meta(None);
    java.modified = i64::MAX;
    assert_eq!(from_java_resource_meta(&java), Err(MetaError::TimestampOutOfRange));
}

#[test]
fn metadata_comparison_and_copy() {
    let a = video_meta();
    let b = a.duplicate();
    assert!(a.same_as(&b));
    let mut c = video_meta();
    c.name = None;
    assert!(!a.same_as(&c));
    let mut d = video_meta();
    d.kind = Some(ResourceKind::Video { height: Some(1080), width: Some(1920), duration: Some(1) });
    assert!(!a.same_as(&d));
}

#[test]
fn record_round_trip_keeps_a_full_object() {
    let java = JavaResourceMeta {
        id: 0xffff_ffff,
        name: Some("notes".to_string()),
        extension: Some(String::new()),
        modified: 86_400_000,
        size: -42,
        kind: Some(JavaResourceKind {
            code: "Link".to_string(),
            fields: vec![
                JavaField::Text(None),
                JavaField::Text(Some("d".to_string())),
                JavaField::Text(Some("u".to_string())),
            ],
        }),
    };
    let meta = from_java_resource_meta(&java).unwrap();
    assert_eq!(into_java_resource_meta(&meta), java);
}
