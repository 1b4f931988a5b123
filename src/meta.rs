use crate::text::{joined, same_text};
use crate::time::{utc_millis_in_range, Timestamp};
use vstd::prelude::*;

verus! {

/// Identity of a resource's content: its size in bytes and its CRC-32.
#[derive(Clone, Copy, Debug, PartialEq, Eq, Hash)]
pub struct ResourceId {
    pub file_size: u64,
    pub crc32: u32,
}

/// What kind of resource a file is, with the details known for that kind.
#[derive(Clone, Debug, PartialEq, Eq, Hash)]
pub enum ResourceKind {
    Document { pages: Option<i64> },
    Link { title: Option<String>, description: Option<String>, url: Option<String> },
    Video { height: Option<i64>, width: Option<i64>, duration: Option<i64> },
    PlainText,
}

/// The variant of a `ResourceKind`, without its details.
#[derive(Clone, Copy, Debug, PartialEq, Eq, Structural, Hash)]
pub enum KindCode {
    Document,
    Link,
    Video,
    PlainText,
}

/// The Java type of a field of a managed kind object.
#[derive(Clone, Copy, Debug, PartialEq, Eq, Structural, Hash)]
pub enum FieldType {
    Long,
    Text,
}

/// Metadata of one indexed resource.
#[derive(Clone, Debug, PartialEq, Eq)]
pub struct ResourceMeta {
    pub id: ResourceId,
    pub name: Option<String>,
    pub extension: Option<String>,
    pub modified: Timestamp,
    pub kind: Option<ResourceKind>,
}

/// A field value of a managed kind object: a nullable `Long` or `String`.
#[derive(Clone, Debug, PartialEq, Eq)]
pub enum JavaField {
    Long(Option<i64>),
    Text(Option<String>),
}

/// A managed `ResourceKind` object: the name of its kind code and its
/// constructor arguments, in order.
#[derive(Clone, Debug, PartialEq, Eq)]
pub struct JavaResourceKind {
    pub code: String,
    pub fields: Vec<JavaField>,
}

/// The fields of a managed `ResourceMeta` object.
#[derive(Clone, Debug, PartialEq, Eq)]
pub struct JavaResourceMeta {
    pub id: i64,
    pub name: Option<String>,
    pub extension: Option<String>,
    pub modified: i64,
    pub size: i64,
    pub kind: Option<JavaResourceKind>,
}

/// Why a managed metadata object cannot be read.
#[derive(Clone, Copy, Debug, PartialEq, Eq, Structural, Hash)]
pub enum MetaError {
    /// The modification time lies outside the representable range.
    TimestampOutOfRange,
    /// The kind code names no known resource kind.
    UnknownKind,
    /// The kind object's fields do not have the shape its code calls for.
    FieldMismatch,
}

/// A kind as the contracts see it: texts as character sequences.
pub enum KindView {
    Document { pages: Option<i64> },
    Link { title: Option<Seq<char>>, description: Option<Seq<char>>, url: Option<Seq<char>> },
    Video { height: Option<i64>, width: Option<i64>, duration: Option<i64> },
    PlainText,
}

/// Metadata as the contracts see it: texts as character sequences and the
/// modification time as milliseconds since the epoch.
pub struct MetaView {
    pub id: ResourceId,
    pub name: Option<Seq<char>>,
    pub extension: Option<Seq<char>>,
    pub modified: i64,
    pub kind: Option<KindView>,
}

/// A managed field value as the contracts see it.
pub enum FieldView {
    Long(Option<i64>),
    Text(Option<Seq<char>>),
}

/// A managed kind object as the contracts see it.
pub struct JavaKindView {
    pub code: Seq<char>,
    pub fields: Seq<FieldView>,
}

/// A managed metadata object as the contracts see it.
pub struct JavaMetaView {
    pub id: i64,
    pub name: Option<Seq<char>>,
    pub extension: Option<Seq<char>>,
    pub modified: i64,
    pub size: i64,
    pub kind: Option<JavaKindView>,
}

/// An optional text as an optional character sequence.
pub open spec fn opt_text(o: Option<String>) -> Option<Seq<char>> {
    match o {
        Some(s) => Some(s@),
        None => None,
    }
}

impl View for ResourceKind {
    type V = KindView;

    open spec fn view(&self) -> KindView {
        match *self {
            ResourceKind::Document { pages } => KindView::Document { pages },
            ResourceKind::Link { title, description, url } => KindView::Link {
                title: opt_text(title),
                description: opt_text(description),
                url: opt_text(url),
            },
            ResourceKind::Video { height, width, duration } => KindView::Video {
                height,
                width,
                duration,
            },
            ResourceKind::PlainText => KindView::PlainText,
        }
    }
}

/// An optional kind as the contracts see it.
pub open spec fn opt_kind(o: Option<ResourceKind>) -> Option<KindView> {
    match o {
        Some(k) => Some(k@),
        None => None,
    }
}

impl View for ResourceMeta {
    type V = MetaView;

    open spec fn view(&self) -> MetaView {
        MetaView {
            id: self.id,
            name: opt_text(self.name),
            extension: opt_text(self.extension),
            modified: self.modified.spec_millis(),
            kind: opt_kind(self.kind),
        }
    }
}

impl View for JavaField {
    type V = FieldView;

    open spec fn view(&self) -> FieldView {
        match *self {
            JavaField::Long(v) => FieldView::Long(v),
            JavaField::Text(t) => FieldView::Text(opt_text(t)),
        }
    }
}

impl View for JavaResourceKind {
    type V = JavaKindView;

    open spec fn view(&self) -> JavaKindView {
        JavaKindView { code: self.code@, fields: self.fields@.map_values(|f: JavaField| f@) }
    }
}

impl View for JavaResourceMeta {
    type V = JavaMetaView;

    open spec fn view(&self) -> JavaMetaView {
        JavaMetaView {
            id: self.id,
            name: opt_text(self.name),
            extension: opt_text(self.extension),
            modified: self.modified,
            size: self.size,
            kind: match self.kind {
                Some(k) => Some(k@),
                None => None,
            },
        }
    }
}

/// The name of a kind code, as both sides spell it.
pub open spec fn code_name(c: KindCode) -> Seq<char> {
    match c {
        KindCode::Document => "Document"@,
        KindCode::Link => "Link"@,
        KindCode::Video => "Video"@,
        KindCode::PlainText => "PlainText"@,
    }
}

/// The kind code spelled `s`, if any.
pub open spec fn code_named(s: Seq<char>) -> Option<KindCode> {
    if s == "Document"@ {
        Some(KindCode::Document)
    } else if s == "Link"@ {
        Some(KindCode::Link)
    } else if s == "Video"@ {
        Some(KindCode::Video)
    } else if s == "PlainText"@ {
        Some(KindCode::PlainText)
    } else {
        None
    }
}

/// The code of a kind.
pub open spec fn kind_code(k: KindView) -> KindCode {
    match k {
        KindView::Document { .. } => KindCode::Document,
        KindView::Link { .. } => KindCode::Link,
        KindView::Video { .. } => KindCode::Video,
        KindView::PlainText => KindCode::PlainText,
    }
}

/// The managed class of a kind: a nested class of `ResourceKind`.
pub open spec fn class_name_of(c: KindCode) -> Seq<char> {
    "space/taran/arklib/index/ResourceKind$"@ + code_name(c)
}

/// The names and types of a kind's constructor arguments, in order.
pub open spec fn field_layout(c: KindCode) -> Seq<(Seq<char>, FieldType)> {
    match c {
        KindCode::Document => seq![("pages"@, FieldType::Long)],
        KindCode::Link => seq![
            ("title"@, FieldType::Text),
            ("description"@, FieldType::Text),
            ("url"@, FieldType::Text),
        ],
        KindCode::Video => seq![
            ("height"@, FieldType::Long),
            ("width"@, FieldType::Long),
            ("duration"@, FieldType::Long),
        ],
        KindCode::PlainText => seq![],
    }
}

/// The JNI signature of a kind's constructor.
pub open spec fn constructor_signature_of(c: KindCode) -> Seq<char> {
    match c {
        KindCode::Document => "(Ljava/lang/Long;)V"@,
        KindCode::Link => "(Ljava/lang/String;Ljava/lang/String;Ljava/lang/String;)V"@,
        KindCode::Video => "(Ljava/lang/Long;Ljava/lang/Long;Ljava/lang/Long;)V"@,
        KindCode::PlainText => "()V"@,
    }
}

/// A kind's details as constructor arguments.
pub open spec fn kind_fields(k: KindView) -> Seq<FieldView> {
    match k {
        KindView::Document { pages } => seq![FieldView::Long(pages)],
        KindView::Link { title, description, url } => seq![
            FieldView::Text(title),
            FieldView::Text(description),
            FieldView::Text(url),
        ],
        KindView::Video { height, width, duration } => seq![
            FieldView::Long(height),
            FieldView::Long(width),
            FieldView::Long(duration),
        ],
        KindView::PlainText => seq![],
    }
}

/// The kind with code `c` whose constructor arguments are `f`, if `f` has the
/// shape that `c` calls for.
pub open spec fn kind_from_fields(c: KindCode, f: Seq<FieldView>) -> Option<KindView> {
    match c {
        KindCode::Document => if f.len() == 1 && f[0] is Long {
            Some(KindView::Document { pages: f[0]->Long_0 })
        } else {
            None
        },
        KindCode::Link => if f.len() == 3 && f[0] is Text && f[1] is Text && f[2] is Text {
            Some(
                KindView::Link {
                    title: f[0]->Text_0,
                    description: f[1]->Text_0,
                    url: f[2]->Text_0,
                },
            )
        } else {
            None
        },
        KindCode::Video => if f.len() == 3 && f[0] is Long && f[1] is Long && f[2] is Long {
            Some(
                KindView::Video {
                    height: f[0]->Long_0,
                    width: f[1]->Long_0,
                    duration: f[2]->Long_0,
                },
            )
        } else {
            None
        },
        KindCode::PlainText => if f.len() == 0 {
            Some(KindView::PlainText)
        } else {
            None
        },
    }
}

/// An optional text, empty where absent.
pub open spec fn text_or_empty(o: Option<Seq<char>>) -> Seq<char> {
    match o {
        Some(s) => s,
        None => Seq::empty(),
    }
}

/// The managed object that stands for `m`: absent texts and an absent kind
/// stay null, and the identity's integers are carried bit for bit into signed
/// `long`s.
pub open spec fn java_meta_of(m: MetaView) -> JavaMetaView {
    JavaMetaView {
        id: m.id.crc32 as i64,
        name: m.name,
        extension: m.extension,
        modified: m.modified,
        size: m.id.file_size as i64,
        kind: match m.kind {
            Some(k) => Some(JavaKindView { code: code_name(kind_code(k)), fields: kind_fields(k) }),
            None => None,
        },
    }
}

/// The metadata that a managed object stands for, or why there is none.
pub open spec fn meta_of_java(j: JavaMetaView) -> Result<MetaView, MetaError> {
    let id = ResourceId { file_size: j.size as u64, crc32: j.id as u32 };
    if !utc_millis_in_range(j.modified) {
        Err(MetaError::TimestampOutOfRange)
    } else {
        match j.kind {
            None => Ok(
                MetaView {
                    id,
                    name: j.name,
                    extension: j.extension,
                    modified: j.modified,
                    kind: None,
                },
            ),
            Some(jk) => match code_named(jk.code) {
                None => Err(MetaError::UnknownKind),
                Some(c) => match kind_from_fields(c, jk.fields) {
                    None => Err(MetaError::FieldMismatch),
                    Some(k) => Ok(
                        MetaView {
                            id,
                            name: j.name,
                            extension: j.extension,
                            modified: j.modified,
                            kind: Some(k),
                        },
                    ),
                },
            },
        }
    }
}

/// A copy of an optional text.
fn copy_text(o: &Option<String>) -> (r: Option<String>)
    ensures
        opt_text(r) == opt_text(*o),
{
    match o {
        Some(s) => Some(s.clone()),
        None => None,
    }
}

impl KindCode {
    /// The kind code spelled `name`.
    pub fn parse(name: &str) -> (r: Option<KindCode>)
        ensures
            r == code_named(name@),
    {
        if same_text(name, "Document") {
            Some(KindCode::Document)
        } else if same_text(name, "Link") {
            Some(KindCode::Link)
        } else if same_text(name, "Video") {
            Some(KindCode::Video)
        } else if same_text(name, "PlainText") {
            Some(KindCode::PlainText)
        } else {
            None
        }
    }

    /// How the code is spelled.
    pub fn name(&self) -> (r: &'static str)
        ensures
            r@ == code_name(*self),
    {
        match self {
            KindCode::Document => "Document",
            KindCode::Link => "Link",
            KindCode::Video => "Video",
            KindCode::PlainText => "PlainText",
        }
    }

    /// The managed class of this kind.
    pub fn class_name(&self) -> (r: String)
        ensures
            r@ == class_name_of(*self),
    {
        joined("space/taran/arklib/index/ResourceKind$", self.name())
    }

    /// The JNI signature of this kind's constructor.
    pub fn constructor_signature(&self) -> (r: &'static str)
        ensures
            r@ == constructor_signature_of(*self),
    {
        match self {
            KindCode::Document => "(Ljava/lang/Long;)V",
            KindCode::Link => "(Ljava/lang/String;Ljava/lang/String;Ljava/lang/String;)V",
            KindCode::Video => "(Ljava/lang/Long;Ljava/lang/Long;Ljava/lang/Long;)V",
            KindCode::PlainText => "()V",
        }
    }

    /// The names and types of this kind's fields, in constructor order.
    pub fn fields(&self) -> (r: Vec<(&'static str, FieldType)>)
        ensures
            r@.len() == field_layout(*self).len(),
            forall|i: int|
                0 <= i < r@.len() ==> (#[trigger] r@[i]).0@ == field_layout(*self)[i].0 && r@[i].1
                    == field_layout(*self)[i].1,
    {
        match self {
            KindCode::Document => vec![("pages", FieldType::Long)],
            KindCode::Link => vec![
                ("title", FieldType::Text),
                ("description", FieldType::Text),
                ("url", FieldType::Text),
            ],
            KindCode::Video => vec![
                ("height", FieldType::Long),
                ("width", FieldType::Long),
                ("duration", FieldType::Long),
            ],
            KindCode::PlainText => vec![],
        }
    }
}

impl ResourceKind {
    /// A copy of this kind.
    pub fn duplicate(&self) -> (r: ResourceKind)
        ensures
            r@ == self@,
    {
        match self {
            ResourceKind::Document { pages } => ResourceKind::Document { pages: *pages },
            ResourceKind::Link { title, description, url } => ResourceKind::Link {
                title: copy_text(title),
                description: copy_text(description),
                url: copy_text(url),
            },
            ResourceKind::Video { height, width, duration } => ResourceKind::Video {
                height: *height,
                width: *width,
                duration: *duration,
            },
            ResourceKind::PlainText => ResourceKind::PlainText,
        }
    }

    /// The code of this kind.
    pub fn code(&self) -> (r: KindCode)
        ensures
            r == kind_code(self@),
    {
        match self {
            ResourceKind::Document { .. } => KindCode::Document,
            ResourceKind::Link { .. } => KindCode::Link,
            ResourceKind::Video { .. } => KindCode::Video,
            ResourceKind::PlainText => KindCode::PlainText,
        }
    }

    /// This kind's details as constructor arguments of its managed class.
    pub fn to_fields(&self) -> (r: Vec<JavaField>)
        ensures
            r@.map_values(|f: JavaField| f@) == kind_fields(self@),
    {
        let r = match self {
            ResourceKind::Document { pages } => vec![JavaField::Long(*pages)],
            ResourceKind::Link { title, description, url } => vec![
                JavaField::Text(copy_text(title)),
                JavaField::Text(copy_text(description)),
                JavaField::Text(copy_text(url)),
            ],
            ResourceKind::Video { height, width, duration } => vec![
                JavaField::Long(*height),
                JavaField::Long(*width),
                JavaField::Long(*duration),
            ],
            ResourceKind::PlainText => vec![],
        };
        assert(r@.map_values(|f: JavaField| f@) =~= kind_fields(self@));
        r
    }

    /// The kind with code `code` whose constructor arguments are `fields`, or
    /// `None` where they do not have the shape that the code calls for.
    pub fn from_fields(code: KindCode, fields: &Vec<JavaField>) -> (r: Option<ResourceKind>)
        ensures
            opt_kind(r) == kind_from_fields(code, fields@.map_values(|f: JavaField| f@)),
    {
        let ghost fv = fields@.map_values(|f: JavaField| f@);
        match code {
            KindCode::Document => {
                if fields.len() == 1 {
                    if let JavaField::Long(pages) = &fields[0] {
                        return Some(ResourceKind::Document { pages: *pages });
                    }
                }
                None
            },
            KindCode::Link => {
                if fields.len() == 3 {
                    if let (JavaField::Text(title), JavaField::Text(description), JavaField::Text(url)) = (&fields[0], &fields[1], &fields[2]) {
                        return Some(
                            ResourceKind::Link {
                                title: copy_text(title),
                                description: copy_text(description),
                                url: copy_text(url),
                            },
                        );
                    }
                }
                None
            },
            KindCode::Video => {
                if fields.len() == 3 {
                    if let (JavaField::Long(height), JavaField::Long(width), JavaField::Long(duration)) = (&fields[0], &fields[1], &fields[2]) {
                        return Some(
                            ResourceKind::Video {
                                height: *height,
                                width: *width,
                                duration: *duration,
                            },
                        );
                    }
                }
                None
            },
            KindCode::PlainText => {
                if fields.len() == 0 {
                    Some(ResourceKind::PlainText)
                } else {
                    None
                }
            },
        }
    }
}

/// Whether two optional texts are equal.
fn same_opt_text(a: &Option<String>, b: &Option<String>) -> (r: bool)
    ensures
        r == (opt_text(*a) == opt_text(*b)),
{
    match (a, b) {
        (Some(x), Some(y)) => *x == *y,
        (None, None) => true,
        _ => false,
    }
}

impl ResourceKind {
    /// Whether two kinds are equal, details included.
    pub fn same_as(&self, other: &ResourceKind) -> (r: bool)
        ensures
            r == (self@ == other@),
    {
        match (self, other) {
            (ResourceKind::Document { pages: a }, ResourceKind::Document { pages: b }) => *a == *b,
            (
                ResourceKind::Link { title: t1, description: d1, url: u1 },
                ResourceKind::Link { title: t2, description: d2, url: u2 },
            ) => same_opt_text(t1, t2) && same_opt_text(d1, d2) && same_opt_text(u1, u2),
            (
                ResourceKind::Video { height: h1, width: w1, duration: d1 },
                ResourceKind::Video { height: h2, width: w2, duration: d2 },
            ) => *h1 == *h2 && *w1 == *w2 && *d1 == *d2,
            (ResourceKind::PlainText, ResourceKind::PlainText) => true,
            _ => false,
        }
    }
}

impl ResourceMeta {
    /// Whether two records are equal, field by field.
    pub fn same_as(&self, other: &ResourceMeta) -> (r: bool)
        ensures
            r == (self@ == other@),
    {
        let same_kind = match (&self.kind, &other.kind) {
            (Some(a), Some(b)) => a.same_as(b),
            (None, None) => true,
            _ => false,
        };
        self.id.file_size == other.id.file_size && self.id.crc32 == other.id.crc32 && same_opt_text(
            &self.name,
            &other.name,
        ) && same_opt_text(&self.extension, &other.extension) && self.modified.millis()
            == other.modified.millis() && same_kind
    }

    /// A copy of this record.
    pub fn duplicate(&self) -> (r: ResourceMeta)
        ensures
            r@ == self@,
    {
        ResourceMeta {
            id: self.id,
            name: copy_text(&self.name),
            extension: copy_text(&self.extension),
            modified: self.modified,
            kind: match &self.kind {
                Some(k) => Some(k.duplicate()),
                None => None,
            },
        }
    }
}

/// The managed object that stands for `meta`.
pub fn into_java_resource_meta(meta: &ResourceMeta) -> (r: JavaResourceMeta)
    ensures
        r@ == java_meta_of(meta@),
{
    let kind = match &meta.kind {
        Some(k) => Some(JavaResourceKind { code: k.code().name().to_owned(), fields: k.to_fields() }),
        None => None,
    };
    JavaResourceMeta {
        id: meta.id.crc32 as i64,
        name: copy_text(&meta.name),
        extension: copy_text(&meta.extension),
        modified: meta.modified.millis(),
        size: meta.id.file_size as i64,
        kind,
    }
}

/// The metadata that the managed object `java` stands for.
pub fn from_java_resource_meta(java: &JavaResourceMeta) -> (r: Result<ResourceMeta, MetaError>)
    ensures
        match r {
            Ok(m) => meta_of_java(java@) == Ok::<MetaView, MetaError>(m@),
            Err(e) => meta_of_java(java@) == Err::<MetaView, MetaError>(e),
        },
{
    let modified = match Timestamp::from_millis(java.modified) {
        Some(t) => t,
        None => return Err(MetaError::TimestampOutOfRange),
    };
    let kind = match &java.kind {
        None => None,
        Some(jk) => match KindCode::parse(jk.code.as_str()) {
            None => return Err(MetaError::UnknownKind),
            Some(code) => match ResourceKind::from_fields(code, &jk.fields) {
                None => return Err(MetaError::FieldMismatch),
                Some(k) => Some(k),
            },
        },
    };
    Ok(
        ResourceMeta {
            id: ResourceId { file_size: java.size as u64, crc32: java.id as u32 },
            name: copy_text(&java.name),
            extension: copy_text(&java.extension),
            modified,
            kind,
        },
    )
}

/// Each kind code reads back from its own spelling.
pub proof fn lemma_code_name_parses(c: KindCode)
    ensures
        code_named(code_name(c)) == Some(c),
{
    reveal_strlit("Document");
    reveal_strlit("Link");
    reveal_strlit("Video");
    reveal_strlit("PlainText");
    assert("Document"@.len() == 8);
    assert("Link"@.len() == 4);
    assert("Video"@.len() == 5);
    assert("PlainText"@.len() == 9);
}

/// Reading back the managed object of a record gives the record again, absent
/// fields included.
pub proof fn lemma_java_round_trip(m: MetaView)
    requires
        utc_millis_in_range(m.modified),
    ensures
        meta_of_java(java_meta_of(m)) == Ok::<MetaView, MetaError>(m),
{
    let x: u64 = m.id.file_size;
    let c: u32 = m.id.crc32;
    assert((x as i64) as u64 == x) by (bit_vector);
    assert((c as i64) as u32 == c) by (bit_vector);
    if m.kind is Some {
        let k = m.kind->Some_0;
        lemma_code_name_parses(kind_code(k));
        assert(kind_from_fields(kind_code(k), kind_fields(k)) == Some(k));
    }
    let j = java_meta_of(m);
    assert(j.name == m.name);
    assert(j.extension == m.extension);
    assert(ResourceId { file_size: j.size as u64, crc32: j.id as u32 } == m.id);
}

/// Writing back a record read from a managed object gives the object again,
/// wherever the object's id fits in 32 bits without sign (the record keeps
/// only the low 32 bits).
pub proof fn lemma_record_round_trip(j: JavaMetaView)
    requires
        meta_of_java(j) is Ok,
        0 <= j.id < 0x1_0000_0000,
    ensures
        java_meta_of(meta_of_java(j)->Ok_0) == j,
{
    let m = meta_of_java(j)->Ok_0;
    let size: i64 = j.size;
    assert((size as u64) as i64 == size) by (bit_vector);
    if j.kind is Some {
        let jk = j.kind->Some_0;
        let c = code_named(jk.code)->Some_0;
        reveal_strlit("Document");
        reveal_strlit("Link");
        reveal_strlit("Video");
        reveal_strlit("PlainText");
        assert(code_name(c) == jk.code);
        let k = kind_from_fields(c, jk.fields)->Some_0;
        assert(kind_code(k) == c);
        assert(kind_fields(k) =~= jk.fields);
    }
}

} // verus!
