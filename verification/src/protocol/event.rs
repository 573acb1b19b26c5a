//! The event: the whole payload that a client sends.

use crate::meta::{Annotated, MetaView};
use crate::processor::{
    process_string, process_string_object, process_value_object, string_object_outcome,
    string_outcome, tree_outcome, Cap, PiiKind, PiiProcessor, ValueInfo,
};
use crate::protocol::types::{
    Breadcrumb, Level, LogEntry, RepoReference, Request, TemplateInfo, Timestamp, User,
};
use crate::value::{object_node, Array, Object, Value};
use vstd::prelude::*;

verus! {

/// The level of an event that names none.
pub fn default_level() -> (r: Annotated<Level>)
    ensures
        r.0 == Some(Level::Error),
        r.1@ == MetaView::empty(),
{
    Annotated::from_value(Level::Error)
}

/// The platform of an event that names none.
pub fn default_platform() -> (r: Annotated<String>)
    ensures
        r.deep_view().value == Some("other"@),
        r.deep_view().meta == MetaView::empty(),
{
    Annotated::from_value("other".to_owned())
}

/// The 128 bits that identify an event.
#[derive(Debug, Clone, Copy, PartialEq, Eq, PartialOrd, Ord, Hash)]
pub struct EventId(pub u128);

/// A list of values of a schema type together with the fields that the
/// schema does not know.
#[derive(Debug, PartialEq)]
pub struct Values<T> {
    /// The values of the list.
    pub values: Annotated<Array<T>>,
    /// Additional arbitrary fields for forwards compatibility.
    pub other: Annotated<Object<Value>>,
}

/// Whether `after` holds what `processor` makes of each breadcrumb of
/// `before`, in the same order.
pub open spec fn breadcrumbs_processed<P: PiiProcessor>(
    before: Annotated<Array<Breadcrumb>>,
    after: Annotated<Array<Breadcrumb>>,
    processor: &P,
) -> bool {
    &&& after.1 == before.1
    &&& match before.0 {
        Some(items) => {
            &&& after.0 is Some
            &&& after.0->0.len() == items.len()
            &&& forall|i: int|
                0 <= i < items.len() ==> Breadcrumb::is_processed_annotated(
                    #[trigger] items[i],
                    after.0->0[i],
                    processor,
                )
        },
        None => after.0 is None,
    }
}

/// Processes each breadcrumb of a list.
pub fn process_breadcrumbs<P: PiiProcessor>(
    annotated: Annotated<Array<Breadcrumb>>,
    processor: &P,
) -> (r: Annotated<Array<Breadcrumb>>)
    requires
        processor.well_formed(),
    ensures
        breadcrumbs_processed(annotated, r, processor),
{
    let Annotated(value, meta) = annotated;
    match value {
        None => Annotated(None, meta),
        Some(items) => {
            let ghost orig = items@;
            let ghost n = orig.len() as int;
            let mut rest = items;
            let mut turned: Vec<Annotated<Breadcrumb>> = Vec::new();
            while rest.len() > 0
                invariant
                    processor.well_formed(),
                    rest.len() + turned.len() == n,
                    n == orig.len(),
                    rest@ == orig.take(rest.len() as int),
                    forall|k: int|
                        0 <= k < turned.len() ==> Breadcrumb::is_processed_annotated(
                            orig[n - 1 - k],
                            #[trigger] turned[k],
                            processor,
                        ),
                decreases rest.len(),
            {
                let item = rest.pop().unwrap();
                assert(item == orig[rest.len() as int]);
                turned.push(Breadcrumb::process_annotated(item, processor));
            }
            let mut out: Vec<Annotated<Breadcrumb>> = Vec::new();
            while turned.len() > 0
                invariant
                    turned.len() + out.len() == n,
                    n == orig.len(),
                    forall|k: int|
                        0 <= k < turned.len() ==> Breadcrumb::is_processed_annotated(
                            orig[n - 1 - k],
                            #[trigger] turned[k],
                            processor,
                        ),
                    forall|k: int|
                        0 <= k < out.len() ==> Breadcrumb::is_processed_annotated(
                            #[trigger] orig[k],
                            out[k],
                            processor,
                        ),
                decreases turned.len(),
            {
                let ghost place = turned.len() - 1;
                let item = turned.pop().unwrap();
                assert(Breadcrumb::is_processed_annotated(orig[n - 1 - place], item, processor));
                out.push(item);
            }
            Annotated(Some(out), meta)
        },
    }
}

/// Represents a full event.
#[derive(Debug, PartialEq)]
pub struct Event {
    /// Unique identifier of this event.
    pub id: Annotated<EventId>,
    /// Severity level of the event (defaults to "error").
    pub level: Annotated<Level>,
    /// Manual fingerprint override.
    pub fingerprint: Annotated<Vec<String>>,
    /// Custom culprit of the event.
    pub culprit: Annotated<String>,
    /// Transaction name of the event.
    pub transaction: Annotated<String>,
    /// Custom message for this event.
    pub message: Annotated<String>,
    /// Custom parameterized message for this event.
    pub logentry: Annotated<LogEntry>,
    /// Logger that created the event.
    pub logger: Annotated<String>,
    /// Name and versions of installed modules.
    pub modules: Annotated<Object<String>>,
    /// Platform identifier of this event (defaults to "other").
    pub platform: Annotated<String>,
    /// Timestamp when the event was created.
    pub timestamp: Annotated<Timestamp>,
    /// Server or device name the event was generated on.
    pub server_name: Annotated<String>,
    /// Program's release identifier.
    pub release: Annotated<String>,
    /// Program's distribution identifier.
    pub dist: Annotated<String>,
    /// References to source code repositories.
    pub repos: Annotated<Object<RepoReference>>,
    /// Environment the environment was generated in ("production" or "development").
    pub environment: Annotated<String>,
    /// Information about the user who triggered this event.
    pub user: Annotated<User>,
    /// Information about a web request that occurred during the event.
    pub request: Annotated<Request>,
    /// List of breadcrumbs recorded before this event.
    pub breadcrumbs: Annotated<Values<Breadcrumb>>,
    /// Simplified template error location information.
    pub template_info: Annotated<TemplateInfo>,
    /// Custom tags for this event.
    pub tags: Annotated<Object<String>>,
    /// Arbitrary extra information set by the user.
    pub extra: Annotated<Object<Value>>,
    /// Additional arbitrary fields for forwards compatibility.
    pub other: Annotated<Object<Value>>,
}

impl Event {
    /// Whether `after` is what `processor` makes of the list of breadcrumbs
    /// `before`: each breadcrumb is processed, and the fields that the schema
    /// does not know are walked without a kind.
    pub open spec fn breadcrumb_values_processed<P: PiiProcessor>(
        before: Annotated<Values<Breadcrumb>>,
        after: Annotated<Values<Breadcrumb>>,
        processor: &P,
    ) -> bool {
        &&& after.1 == before.1
        &&& match before.0 {
            Some(list) => {
                &&& after.0 is Some
                &&& breadcrumbs_processed(list.values, after.0->0.values, processor)
                &&& object_node(after.0->0.other) == tree_outcome(
                    processor,
                    object_node(list.other),
                    ValueInfo { pii_kind: None, cap: None },
                )
            },
            None => after.0 is None,
        }
    }

    /// Whether `after` is what `processor` makes of `before`: each field
    /// that declares a kind of PII is processed by that kind, the parts of
    /// the event that have fields of their own are processed field by field,
    /// and the other fields are as they were.
    pub open spec fn is_processed<P: PiiProcessor>(before: Event, after: Event, processor: &P)
        -> bool {
        &&& after.id == before.id
        &&& after.level == before.level
        &&& after.fingerprint == before.fingerprint
        &&& after.culprit == before.culprit
        &&& after.transaction == before.transaction
        &&& after.message.deep_view() == string_outcome(
            processor,
            before.message.deep_view(),
            ValueInfo { pii_kind: Some(PiiKind::Freeform), cap: Some(Cap::Message) },
        )
        &&& LogEntry::is_processed_annotated(before.logentry, after.logentry, processor)
        &&& after.logger == before.logger
        &&& after.modules == before.modules
        &&& after.platform == before.platform
        &&& after.timestamp == before.timestamp
        &&& after.server_name == before.server_name
        &&& after.release == before.release
        &&& after.dist == before.dist
        &&& after.repos == before.repos
        &&& after.environment == before.environment
        &&& User::is_processed_annotated(before.user, after.user, processor)
        &&& Request::is_processed_annotated(before.request, after.request, processor)
        &&& Event::breadcrumb_values_processed(before.breadcrumbs, after.breadcrumbs, processor)
        &&& TemplateInfo::is_processed_annotated(
            before.template_info,
            after.template_info,
            processor,
        )
        &&& after.tags.deep_view() == string_object_outcome(
            processor,
            before.tags.deep_view(),
            ValueInfo { pii_kind: Some(PiiKind::Databag), cap: None },
        )
        &&& object_node(after.extra) == tree_outcome(
            processor,
            object_node(before.extra),
            ValueInfo { pii_kind: Some(PiiKind::Databag), cap: None },
        )
        &&& object_node(after.other) == tree_outcome(
            processor,
            object_node(before.other),
            ValueInfo { pii_kind: Some(PiiKind::Databag), cap: None },
        )
    }

    /// Processes the fields of the event that declare a kind of PII and the
    /// parts of the event that have such fields.
    pub fn process<P: PiiProcessor>(self, processor: &P) -> (r: Event)
        requires
            processor.well_formed(),
        ensures
            Event::is_processed(self, r, processor),
    {
        let databag = ValueInfo { pii_kind: Some(PiiKind::Databag), cap: None };
        let Annotated(breadcrumbs, breadcrumbs_meta) = self.breadcrumbs;
        let breadcrumbs = match breadcrumbs {
            Some(list) => Some(
                Values {
                    values: process_breadcrumbs(list.values, processor),
                    other: process_value_object(
                        processor,
                        list.other,
                        &ValueInfo::default().derive(),
                    ),
                },
            ),
            None => None,
        };
        Event {
            id: self.id,
            level: self.level,
            fingerprint: self.fingerprint,
            culprit: self.culprit,
            transaction: self.transaction,
            message: process_string(
                processor,
                self.message,
                &ValueInfo { pii_kind: Some(PiiKind::Freeform), cap: Some(Cap::Message) },
            ),
            logentry: LogEntry::process_annotated(self.logentry, processor),
            logger: self.logger,
            modules: self.modules,
            platform: self.platform,
            timestamp: self.timestamp,
            server_name: self.server_name,
            release: self.release,
            dist: self.dist,
            repos: self.repos,
            environment: self.environment,
            user: User::process_annotated(self.user, processor),
            request: Request::process_annotated(self.request, processor),
            breadcrumbs: Annotated(breadcrumbs, breadcrumbs_meta),
            template_info: TemplateInfo::process_annotated(self.template_info, processor),
            tags: process_string_object(processor, self.tags, &databag),
            extra: process_value_object(processor, self.extra, &databag),
            other: process_value_object(processor, self.other, &databag),
        }
    }

    /// Whether `after` is what `processor` makes of the annotated `before`:
    /// an event that is present is processed, and the meta record stays.
    pub open spec fn is_processed_annotated<P: PiiProcessor>(
        before: Annotated<Event>,
        after: Annotated<Event>,
        processor: &P,
    ) -> bool {
        &&& after.1 == before.1
        &&& match before.0 {
            Some(value) => after.0 is Some && Event::is_processed(value, after.0->0, processor),
            None => after.0 is None,
        }
    }

    /// Processes the event, where it is present.
    pub fn process_annotated<P: PiiProcessor>(annotated: Annotated<Event>, processor: &P) -> (r:
        Annotated<Event>)
        requires
            processor.well_formed(),
        ensures
            Event::is_processed_annotated(annotated, r, processor),
    {
        let Annotated(value, meta) = annotated;
        match value {
            Some(value) => Annotated(Some(value.process(processor)), meta),
            None => Annotated(None, meta),
        }
    }
}

} // verus!
