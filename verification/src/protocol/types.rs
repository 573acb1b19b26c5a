//! Types of the protocol.

use crate::meta::{Annotated, MetaView};
use crate::processor::{
    process_string, process_string_object, process_value, process_value_array,
    process_value_object, string_object_outcome, string_outcome, tree_outcome, Cap, PiiKind,
    PiiProcessor, ValueInfo,
};
use crate::value::{array_node, node_view, object_node, Array, Object, Value};
use crate::text::same_text;
use vstd::prelude::*;

verus! {

/// An error used when parsing `Level`.
#[derive(Debug, Copy, Clone, PartialEq, Eq)]
pub struct ParseLevelError;

impl ParseLevelError {
    /// The error in words.
    pub fn message(&self) -> (r: &'static str)
        ensures
            r@ == "invalid level"@,
    {
        "invalid level"
    }
}

/// Severity level of an event or breadcrumb.
#[derive(Debug, Copy, Clone, PartialEq, Eq, Structural, PartialOrd, Ord, Hash)]
pub enum Level {
    /// Indicates very spammy debug information.
    Debug,
    /// Informational messages.
    Info,
    /// A warning.
    Warning,
    /// An error.
    Error,
    /// Similar to error but indicates a critical event that usually causes a shutdown.
    Fatal,
}

impl Default for Level {
    fn default() -> (r: Level)
        ensures
            r == Level::Info,
    {
        Level::Info
    }
}

/// The level that a name stands for. `log` is another name of `info`.
pub open spec fn level_of(name: Seq<char>) -> Option<Level> {
    if name == "debug"@ {
        Some(Level::Debug)
    } else if name == "info"@ || name == "log"@ {
        Some(Level::Info)
    } else if name == "warning"@ {
        Some(Level::Warning)
    } else if name == "error"@ {
        Some(Level::Error)
    } else if name == "fatal"@ {
        Some(Level::Fatal)
    } else {
        None
    }
}

impl Level {
    /// The name of the level.
    pub open spec fn name(self) -> Seq<char> {
        match self {
            Level::Debug => "debug"@,
            Level::Info => "info"@,
            Level::Warning => "warning"@,
            Level::Error => "error"@,
            Level::Fatal => "fatal"@,
        }
    }

    /// The level with the name `string`.
    pub fn parse(string: &str) -> (r: Result<Level, ParseLevelError>)
        ensures
            match level_of(string@) {
                Some(level) => r == Ok::<Level, ParseLevelError>(level),
                None => r is Err,
            },
    {
        if same_text(string, "debug") {
            Ok(Level::Debug)
        } else if same_text(string, "info") || same_text(string, "log") {
            Ok(Level::Info)
        } else if same_text(string, "warning") {
            Ok(Level::Warning)
        } else if same_text(string, "error") {
            Ok(Level::Error)
        } else if same_text(string, "fatal") {
            Ok(Level::Fatal)
        } else {
            Err(ParseLevelError)
        }
    }

    /// The name of the level.
    pub fn as_str(&self) -> (r: &'static str)
        ensures
            r@ == self.name(),
    {
        match self {
            Level::Debug => "debug",
            Level::Info => "info",
            Level::Warning => "warning",
            Level::Error => "error",
            Level::Fatal => "fatal",
        }
    }

    /// A quick way to check if the level is `debug`.
    pub fn is_debug(&self) -> (r: bool)
        ensures
            r == (*self == Level::Debug),
    {
        *self == Level::Debug
    }

    /// A quick way to check if the level is `info`.
    pub fn is_info(&self) -> (r: bool)
        ensures
            r == (*self == Level::Info),
    {
        *self == Level::Info
    }

    /// A quick way to check if the level is `warning`.
    pub fn is_warning(&self) -> (r: bool)
        ensures
            r == (*self == Level::Warning),
    {
        *self == Level::Warning
    }

    /// A quick way to check if the level is `error`.
    pub fn is_error(&self) -> (r: bool)
        ensures
            r == (*self == Level::Error),
    {
        *self == Level::Error
    }

    /// A quick way to check if the level is `fatal`.
    pub fn is_fatal(&self) -> (r: bool)
        ensures
            r == (*self == Level::Fatal),
    {
        *self == Level::Fatal
    }
}

impl std::str::FromStr for Level {
    type Err = ParseLevelError;

    fn from_str(string: &str) -> (r: Result<Level, ParseLevelError>)
        ensures
            match level_of(string@) {
                Some(level) => r == Ok::<Level, ParseLevelError>(level),
                None => r is Err,
            },
    {
        Level::parse(string)
    }
}

/// Represents a register value.
#[derive(Debug, Clone, Copy, PartialEq, Eq, PartialOrd, Ord, Hash)]
pub struct RegVal(pub u64);

impl Default for RegVal {
    fn default() -> (r: RegVal)
        ensures
            r.0 == 0,
    {
        RegVal(0)
    }
}

/// The type of a breadcrumb that names none.
pub fn default_breadcrumb_type() -> (r: Annotated<String>)
    ensures
        r.deep_view().value == Some("default"@),
        r.deep_view().meta == MetaView::empty(),
{
    Annotated::from_value("default".to_owned())
}

/// A point in time: seconds and nanoseconds since the start of 1970 in UTC.
#[derive(Debug, Clone, Copy, PartialEq, Eq, PartialOrd, Ord, Hash)]
pub struct Timestamp {
    /// The whole seconds.
    pub seconds: i64,
    /// The nanoseconds after the last whole second.
    pub nanos: u32,
}

/// A log entry message.
///
/// A log message is similar to the `message` attribute on the event itself but
/// can additionally hold optional parameters.
#[derive(Debug, PartialEq)]
pub struct LogEntry {
    /// The log message with parameter placeholders (required).
    pub message: Annotated<String>,
    /// Positional parameters to be interpolated into the log message.
    pub params: Annotated<Array<Value>>,
    /// Additional arbitrary fields for forwards compatibility.
    pub other: Annotated<Object<Value>>,
}

impl LogEntry {
    /// Whether `after` is what `processor` makes of `before`: each field
    /// that declares a kind of PII is processed by that kind, and the other
    /// fields are as they were.
    pub open spec fn is_processed<P: PiiProcessor>(before: LogEntry, after: LogEntry, processor: &P) -> bool {
        &&& after.message.deep_view() == string_outcome(processor, before.message.deep_view(), ValueInfo { pii_kind: Some(PiiKind::Freeform), cap: Some(Cap::Message) })
        &&& array_node(after.params) == tree_outcome(processor, array_node(before.params), ValueInfo { pii_kind: Some(PiiKind::Databag), cap: None })
        &&& object_node(after.other) == tree_outcome(processor, object_node(before.other), ValueInfo { pii_kind: Some(PiiKind::Databag), cap: None })
    }

    /// Processes the fields that declare a kind of PII.
    pub fn process<P: PiiProcessor>(self, processor: &P) -> (r: LogEntry)
        requires
            processor.well_formed(),
        ensures
            LogEntry::is_processed(self, r, processor),
    {
        LogEntry {
            message: process_string(processor, self.message, &ValueInfo { pii_kind: Some(PiiKind::Freeform), cap: Some(Cap::Message) }),
            params: process_value_array(processor, self.params, &ValueInfo { pii_kind: Some(PiiKind::Databag), cap: None }),
            other: process_value_object(processor, self.other, &ValueInfo { pii_kind: Some(PiiKind::Databag), cap: None }),
        }
    }

    /// Whether `after` is what `processor` makes of the annotated `before`:
    /// a value that is present is processed, and the meta record stays.
    pub open spec fn is_processed_annotated<P: PiiProcessor>(
        before: Annotated<LogEntry>,
        after: Annotated<LogEntry>,
        processor: &P,
    ) -> bool {
        &&& after.1 == before.1
        &&& match before.0 {
            Some(value) => after.0 is Some && LogEntry::is_processed(value, after.0->0, processor),
            None => after.0 is None,
        }
    }

    /// Processes the value, where it is present.
    pub fn process_annotated<P: PiiProcessor>(annotated: Annotated<LogEntry>, processor: &P) -> (r:
        Annotated<LogEntry>)
        requires
            processor.well_formed(),
        ensures
            LogEntry::is_processed_annotated(annotated, r, processor),
    {
        let Annotated(value, meta) = annotated;
        match value {
            Some(value) => Annotated(Some(value.process(processor)), meta),
            None => Annotated(None, meta),
        }
    }
}

/// Reference to a source code repository.
#[derive(Debug, PartialEq)]
pub struct RepoReference {
    /// Name under which the repository is registered (required).
    pub name: Annotated<String>,
    /// Prefix to apply to source code when pairing it with files in the repository.
    pub prefix: Annotated<String>,
    /// Current reivision of the repository at build time.
    pub revision: Annotated<String>,
    /// Additional arbitrary fields for forwards compatibility.
    pub other: Annotated<Object<Value>>,
}

/// Information about the user who triggered an event.
#[derive(Debug, PartialEq)]
pub struct User {
    /// Unique identifier of the user.
    pub id: Annotated<String>,
    /// Email address of the user.
    pub email: Annotated<String>,
    /// Remote IP address of the user. Defaults to "{{auto}}".
    pub ip_address: Annotated<String>,
    /// Human readable name of the user.
    pub username: Annotated<String>,
    /// Additional arbitrary fields for forwards compatibility.
    pub other: Annotated<Object<Value>>,
}

impl User {
    /// Whether `after` is what `processor` makes of `before`: each field
    /// that declares a kind of PII is processed by that kind, and the other
    /// fields are as they were.
    pub open spec fn is_processed<P: PiiProcessor>(before: User, after: User, processor: &P) -> bool {
        &&& after.id.deep_view() == string_outcome(processor, before.id.deep_view(), ValueInfo { pii_kind: Some(PiiKind::Id), cap: None })
        &&& after.email.deep_view() == string_outcome(processor, before.email.deep_view(), ValueInfo { pii_kind: Some(PiiKind::Email), cap: None })
        &&& after.ip_address.deep_view() == string_outcome(processor, before.ip_address.deep_view(), ValueInfo { pii_kind: Some(PiiKind::Ip), cap: None })
        &&& after.username.deep_view() == string_outcome(processor, before.username.deep_view(), ValueInfo { pii_kind: Some(PiiKind::Username), cap: None })
        &&& object_node(after.other) == tree_outcome(processor, object_node(before.other), ValueInfo { pii_kind: Some(PiiKind::Databag), cap: None })
    }

    /// Processes the fields that declare a kind of PII.
    pub fn process<P: PiiProcessor>(self, processor: &P) -> (r: User)
        requires
            processor.well_formed(),
        ensures
            User::is_processed(self, r, processor),
    {
        User {
            id: process_string(processor, self.id, &ValueInfo { pii_kind: Some(PiiKind::Id), cap: None }),
            email: process_string(processor, self.email, &ValueInfo { pii_kind: Some(PiiKind::Email), cap: None }),
            ip_address: process_string(processor, self.ip_address, &ValueInfo { pii_kind: Some(PiiKind::Ip), cap: None }),
            username: process_string(processor, self.username, &ValueInfo { pii_kind: Some(PiiKind::Username), cap: None }),
            other: process_value_object(processor, self.other, &ValueInfo { pii_kind: Some(PiiKind::Databag), cap: None }),
        }
    }

    /// Whether `after` is what `processor` makes of the annotated `before`:
    /// a value that is present is processed, and the meta record stays.
    pub open spec fn is_processed_annotated<P: PiiProcessor>(
        before: Annotated<User>,
        after: Annotated<User>,
        processor: &P,
    ) -> bool {
        &&& after.1 == before.1
        &&& match before.0 {
            Some(value) => after.0 is Some && User::is_processed(value, after.0->0, processor),
            None => after.0 is None,
        }
    }

    /// Processes the value, where it is present.
    pub fn process_annotated<P: PiiProcessor>(annotated: Annotated<User>, processor: &P) -> (r:
        Annotated<User>)
        requires
            processor.well_formed(),
        ensures
            User::is_processed_annotated(annotated, r, processor),
    {
        let Annotated(value, meta) = annotated;
        match value {
            Some(value) => Annotated(Some(value.process(processor)), meta),
            None => Annotated(None, meta),
        }
    }
}

/// Http request information.
#[derive(Debug, PartialEq)]
pub struct Request {
    /// URL of the request.
    pub url: Annotated<String>,
    /// HTTP request method.
    pub method: Annotated<String>,
    /// Request data in any format that makes sense.
    pub data: Annotated<Value>,
    /// URL encoded HTTP query string.
    pub query_string: Annotated<String>,
    /// URL encoded contents of the Cookie header.
    pub cookies: Annotated<String>,
    /// HTTP request headers.
    pub headers: Annotated<Object<String>>,
    /// Server environment data, such as CGI/WSGI.
    pub env: Annotated<Object<String>>,
    /// Additional arbitrary fields for forwards compatibility.
    pub other: Annotated<Object<Value>>,
}

impl Request {
    /// Whether `after` is what `processor` makes of `before`: each field
    /// that declares a kind of PII is processed by that kind, and the other
    /// fields are as they were.
    pub open spec fn is_processed<P: PiiProcessor>(before: Request, after: Request, processor: &P) -> bool {
        &&& after.url == before.url
        &&& after.method == before.method
        &&& node_view(after.data) == tree_outcome(processor, node_view(before.data), ValueInfo { pii_kind: Some(PiiKind::Databag), cap: None })
        &&& after.query_string.deep_view() == string_outcome(processor, before.query_string.deep_view(), ValueInfo { pii_kind: Some(PiiKind::Freeform), cap: None })
        &&& after.cookies.deep_view() == string_outcome(processor, before.cookies.deep_view(), ValueInfo { pii_kind: Some(PiiKind::Freeform), cap: None })
        &&& after.headers.deep_view() == string_object_outcome(processor, before.headers.deep_view(), ValueInfo { pii_kind: Some(PiiKind::Databag), cap: None })
        &&& after.env.deep_view() == string_object_outcome(processor, before.env.deep_view(), ValueInfo { pii_kind: Some(PiiKind::Databag), cap: None })
        &&& object_node(after.other) == tree_outcome(processor, object_node(before.other), ValueInfo { pii_kind: Some(PiiKind::Databag), cap: None })
    }

    /// Processes the fields that declare a kind of PII.
    pub fn process<P: PiiProcessor>(self, processor: &P) -> (r: Request)
        requires
            processor.well_formed(),
        ensures
            Request::is_processed(self, r, processor),
    {
        Request {
            url: self.url,
            method: self.method,
            data: process_value(processor, self.data, &ValueInfo { pii_kind: Some(PiiKind::Databag), cap: None }),
            query_string: process_string(processor, self.query_string, &ValueInfo { pii_kind: Some(PiiKind::Freeform), cap: None }),
            cookies: process_string(processor, self.cookies, &ValueInfo { pii_kind: Some(PiiKind::Freeform), cap: None }),
            headers: process_string_object(processor, self.headers, &ValueInfo { pii_kind: Some(PiiKind::Databag), cap: None }),
            env: process_string_object(processor, self.env, &ValueInfo { pii_kind: Some(PiiKind::Databag), cap: None }),
            other: process_value_object(processor, self.other, &ValueInfo { pii_kind: Some(PiiKind::Databag), cap: None }),
        }
    }

    /// Whether `after` is what `processor` makes of the annotated `before`:
    /// a value that is present is processed, and the meta record stays.
    pub open spec fn is_processed_annotated<P: PiiProcessor>(
        before: Annotated<Request>,
        after: Annotated<Request>,
        processor: &P,
    ) -> bool {
        &&& after.1 == before.1
        &&& match before.0 {
            Some(value) => after.0 is Some && Request::is_processed(value, after.0->0, processor),
            None => after.0 is None,
        }
    }

    /// Processes the value, where it is present.
    pub fn process_annotated<P: PiiProcessor>(annotated: Annotated<Request>, processor: &P) -> (r:
        Annotated<Request>)
        requires
            processor.well_formed(),
        ensures
            Request::is_processed_annotated(annotated, r, processor),
    {
        let Annotated(value, meta) = annotated;
        match value {
            Some(value) => Annotated(Some(value.process(processor)), meta),
            None => Annotated(None, meta),
        }
    }
}

/// A breadcrumb.
#[derive(Debug, PartialEq)]
pub struct Breadcrumb {
    /// The timestamp of the breadcrumb (required).
    pub timestamp: Annotated<Timestamp>,
    /// The type of the breadcrumb.
    pub ty: Annotated<String>,
    /// The optional category of the breadcrumb.
    pub category: Annotated<String>,
    /// Severity level of the breadcrumb (required).
    pub level: Annotated<Level>,
    /// Human readable message for the breadcrumb.
    pub message: Annotated<String>,
    /// Custom user-defined data of this breadcrumb.
    pub data: Annotated<Object<Value>>,
    /// Additional arbitrary fields for forwards compatibility.
    pub other: Annotated<Object<Value>>,
}

impl Breadcrumb {
    /// Whether `after` is what `processor` makes of `before`: each field
    /// that declares a kind of PII is processed by that kind, and the other
    /// fields are as they were.
    pub open spec fn is_processed<P: PiiProcessor>(before: Breadcrumb, after: Breadcrumb, processor: &P) -> bool {
        &&& after.timestamp == before.timestamp
        &&& after.ty == before.ty
        &&& after.category == before.category
        &&& after.level == before.level
        &&& after.message.deep_view() == string_outcome(processor, before.message.deep_view(), ValueInfo { pii_kind: Some(PiiKind::Freeform), cap: Some(Cap::Message) })
        &&& object_node(after.data) == tree_outcome(processor, object_node(before.data), ValueInfo { pii_kind: Some(PiiKind::Databag), cap: None })
        &&& object_node(after.other) == tree_outcome(processor, object_node(before.other), ValueInfo { pii_kind: Some(PiiKind::Databag), cap: None })
    }

    /// Processes the fields that declare a kind of PII.
    pub fn process<P: PiiProcessor>(self, processor: &P) -> (r: Breadcrumb)
        requires
            processor.well_formed(),
        ensures
            Breadcrumb::is_processed(self, r, processor),
    {
        Breadcrumb {
            timestamp: self.timestamp,
            ty: self.ty,
            category: self.category,
            level: self.level,
            message: process_string(processor, self.message, &ValueInfo { pii_kind: Some(PiiKind::Freeform), cap: Some(Cap::Message) }),
            data: process_value_object(processor, self.data, &ValueInfo { pii_kind: Some(PiiKind::Databag), cap: None }),
            other: process_value_object(processor, self.other, &ValueInfo { pii_kind: Some(PiiKind::Databag), cap: None }),
        }
    }

    /// Whether `after` is what `processor` makes of the annotated `before`:
    /// a value that is present is processed, and the meta record stays.
    pub open spec fn is_processed_annotated<P: PiiProcessor>(
        before: Annotated<Breadcrumb>,
        after: Annotated<Breadcrumb>,
        processor: &P,
    ) -> bool {
        &&& after.1 == before.1
        &&& match before.0 {
            Some(value) => after.0 is Some && Breadcrumb::is_processed(value, after.0->0, processor),
            None => after.0 is None,
        }
    }

    /// Processes the value, where it is present.
    pub fn process_annotated<P: PiiProcessor>(annotated: Annotated<Breadcrumb>, processor: &P) -> (r:
        Annotated<Breadcrumb>)
        requires
            processor.well_formed(),
        ensures
            Breadcrumb::is_processed_annotated(annotated, r, processor),
    {
        let Annotated(value, meta) = annotated;
        match value {
            Some(value) => Annotated(Some(value.process(processor)), meta),
            None => Annotated(None, meta),
        }
    }
}

/// Template debug information.
#[derive(Debug, PartialEq)]
pub struct TemplateInfo {
    /// The file name (basename only).
    pub filename: Annotated<String>,
    /// Absolute path to the file.
    pub abs_path: Annotated<String>,
    /// Line number within the source file.
    pub line: Annotated<u64>,
    /// Column number within the source file.
    pub column: Annotated<u64>,
    /// Source code leading up to the current line.
    pub pre_lines: Annotated<Array<String>>,
    /// Source code of the current line.
    pub current_line: Annotated<String>,
    /// Source code of the lines after the current line.
    pub post_lines: Annotated<Array<String>>,
    /// Additional arbitrary fields for forwards compatibility.
    pub other: Annotated<Object<Value>>,
}

impl TemplateInfo {
    /// Whether `after` is what `processor` makes of `before`: each field
    /// that declares a kind of PII is processed by that kind, and the other
    /// fields are as they were.
    pub open spec fn is_processed<P: PiiProcessor>(before: TemplateInfo, after: TemplateInfo, processor: &P) -> bool {
        &&& after.filename.deep_view() == string_outcome(processor, before.filename.deep_view(), ValueInfo { pii_kind: Some(PiiKind::Freeform), cap: Some(Cap::ShortPath) })
        &&& after.abs_path.deep_view() == string_outcome(processor, before.abs_path.deep_view(), ValueInfo { pii_kind: Some(PiiKind::Freeform), cap: Some(Cap::Path) })
        &&& after.line == before.line
        &&& after.column == before.column
        &&& after.pre_lines == before.pre_lines
        &&& after.current_line == before.current_line
        &&& after.post_lines == before.post_lines
        &&& object_node(after.other) == tree_outcome(processor, object_node(before.other), ValueInfo { pii_kind: Some(PiiKind::Databag), cap: None })
    }

    /// Processes the fields that declare a kind of PII.
    pub fn process<P: PiiProcessor>(self, processor: &P) -> (r: TemplateInfo)
        requires
            processor.well_formed(),
        ensures
            TemplateInfo::is_processed(self, r, processor),
    {
        TemplateInfo {
            filename: process_string(processor, self.filename, &ValueInfo { pii_kind: Some(PiiKind::Freeform), cap: Some(Cap::ShortPath) }),
            abs_path: process_string(processor, self.abs_path, &ValueInfo { pii_kind: Some(PiiKind::Freeform), cap: Some(Cap::Path) }),
            line: self.line,
            column: self.column,
            pre_lines: self.pre_lines,
            current_line: self.current_line,
            post_lines: self.post_lines,
            other: process_value_object(processor, self.other, &ValueInfo { pii_kind: Some(PiiKind::Databag), cap: None }),
        }
    }

    /// Whether `after` is what `processor` makes of the annotated `before`:
    /// a value that is present is processed, and the meta record stays.
    pub open spec fn is_processed_annotated<P: PiiProcessor>(
        before: Annotated<TemplateInfo>,
        after: Annotated<TemplateInfo>,
        processor: &P,
    ) -> bool {
        &&& after.1 == before.1
        &&& match before.0 {
            Some(value) => after.0 is Some && TemplateInfo::is_processed(value, after.0->0, processor),
            None => after.0 is None,
        }
    }

    /// Processes the value, where it is present.
    pub fn process_annotated<P: PiiProcessor>(annotated: Annotated<TemplateInfo>, processor: &P) -> (r:
        Annotated<TemplateInfo>)
        requires
            processor.well_formed(),
        ensures
            TemplateInfo::is_processed_annotated(annotated, r, processor),
    {
        let Annotated(value, meta) = annotated;
        match value {
            Some(value) => Annotated(Some(value.process(processor)), meta),
            None => Annotated(None, meta),
        }
    }
}

} // verus!
