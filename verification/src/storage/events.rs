//! The stored form of events.

use vstd::prelude::*;
use crate::clock::Timestamp;
use crate::event::{ContextReference, Event, EventData, ValidationError};
use crate::ids;
use crate::json;
use crate::storage::names;
use crate::storage::operations;
use crate::storage::operations::UniqueRecord;
use crate::storage::rows;
use crate::storage::StorageError;
use crate::text;

verus! {

/// The JSON object of an event's payload, with the kind of payload first.
pub open spec fn data_json_of(data: EventData) -> Seq<char> {
    match data {
        EventData::Synthetic { label, counter } => "{\"kind\":\"synthetic\",\"label\":"@
            + json::quoted(label@) + ",\"counter\":"@ + text::signed_decimal_of(counter as int)
            + "}"@,
        EventData::BrowserResourceOpened { resource_id } =>
            "{\"kind\":\"browser_resource_opened\",\"resource_id\":\""@ + ids::id_text(
            resource_id.value,
        ) + "\"}"@,
        EventData::VscodeWorkspaceOpened { resource_id } =>
            "{\"kind\":\"vscode_workspace_opened\",\"resource_id\":\""@ + ids::id_text(
            resource_id.value,
        ) + "\"}"@,
    }
}

/// The JSON object of a context, without the members that it does not have.
pub open spec fn context_json_of(context: ContextReference) -> Seq<char> {
    match (context.project, context.session) {
        (None, None) => "{}"@,
        (Some(project), None) => "{\"project\":"@ + json::quoted(project@) + "}"@,
        (None, Some(session)) => "{\"session\":"@ + json::quoted(session@) + "}"@,
        (Some(project), Some(session)) => "{\"project\":"@ + json::quoted(project@)
            + ",\"session\":"@ + json::quoted(session@) + "}"@,
    }
}

/// The canonical JSON of an event whose two times are written as given.
pub open spec fn event_json_of(event: Event, occurred_at: Seq<char>, received_at: Seq<char>) -> Seq<
    char,
> {
    "{\"spec_version\":"@ + json::quoted(event.spec_version@) + ",\"id\":\""@ + ids::id_text(
        event.id.value,
    ) + "\",\"type\":\""@ + names::event_type_text(event.event_type)@ + "\",\"source\":"@
        + json::quoted(event.source@) + ",\"occurred_at\":\""@ + occurred_at
        + "\",\"received_at\":\""@ + received_at + "\",\"actor\":\""@ + names::actor_text(
        event.actor,
    )@ + "\",\"adapter\":{\"id\":"@ + json::quoted(event.adapter.id@) + ",\"version\":"@
        + json::quoted(event.adapter.version@) + ",\"instance_id\":\""@ + ids::id_text(
        event.adapter.instance_id.value,
    ) + "\",\"sequence_no\":"@ + text::decimal_of(event.adapter.sequence_no as nat) + "}"@ + (
    match event.context {
        Some(context) => ",\"context\":"@ + context_json_of(context),
        None => Seq::empty(),
    }) + ",\"privacy\":\""@ + names::privacy_text(event.privacy)@ + "\",\"data\":"@ + data_json_of(
        event.data,
    ) + "}"@
}

fn quote(value: &str) -> (quoted: String)
    ensures
        quoted@ == json::quoted(value@),
{
    match json::quote(value) {
        Ok(quoted) => quoted,
        Err(_) => String::new(),
    }
}

pub fn data_json(data: &EventData) -> (out: String)
    ensures
        out@ == data_json_of(*data),
{
    match data {
        EventData::Synthetic { label, counter } => {
            let mut out = "{\"kind\":\"synthetic\",\"label\":".to_owned();
            out.append(quote(label.as_str()).as_str());
            out.append(",\"counter\":");
            out.append(text::signed_decimal(*counter).as_str());
            out.append("}");
            out
        },
        EventData::BrowserResourceOpened { resource_id } => {
            let mut out = "{\"kind\":\"browser_resource_opened\",\"resource_id\":\"".to_owned();
            out.append(resource_id.to_text().as_str());
            out.append("\"}");
            out
        },
        EventData::VscodeWorkspaceOpened { resource_id } => {
            let mut out = "{\"kind\":\"vscode_workspace_opened\",\"resource_id\":\"".to_owned();
            out.append(resource_id.to_text().as_str());
            out.append("\"}");
            out
        },
    }
}

pub fn context_json(context: &ContextReference) -> (out: String)
    ensures
        out@ == context_json_of(*context),
{
    match (&context.project, &context.session) {
        (None, None) => "{}".to_owned(),
        (Some(project), None) => {
            let mut out = "{\"project\":".to_owned();
            out.append(quote(project.as_str()).as_str());
            out.append("}");
            out
        },
        (None, Some(session)) => {
            let mut out = "{\"session\":".to_owned();
            out.append(quote(session.as_str()).as_str());
            out.append("}");
            out
        },
        (Some(project), Some(session)) => {
            let mut out = "{\"project\":".to_owned();
            out.append(quote(project.as_str()).as_str());
            out.append(",\"session\":");
            out.append(quote(session.as_str()).as_str());
            out.append("}");
            out
        },
    }
}

fn event_json(event: &Event, occurred_at: &str, received_at: &str) -> (out: String)
    ensures
        out@ == event_json_of(*event, occurred_at@, received_at@),
{
    let mut out = "{\"spec_version\":".to_owned();
    out.append(quote(event.spec_version.as_str()).as_str());
    out.append(",\"id\":\"");
    out.append(event.id.to_text().as_str());
    out.append("\",\"type\":\"");
    out.append(names::event_type_name(event.event_type));
    out.append("\",\"source\":");
    out.append(quote(event.source.as_str()).as_str());
    out.append(",\"occurred_at\":\"");
    out.append(occurred_at);
    out.append("\",\"received_at\":\"");
    out.append(received_at);
    out.append("\",\"actor\":\"");
    out.append(names::actor_name(event.actor));
    out.append("\",\"adapter\":{\"id\":");
    out.append(quote(event.adapter.id.as_str()).as_str());
    out.append(",\"version\":");
    out.append(quote(event.adapter.version.as_str()).as_str());
    out.append(",\"instance_id\":\"");
    out.append(event.adapter.instance_id.to_text().as_str());
    out.append("\",\"sequence_no\":");
    out.append(text::decimal(event.adapter.sequence_no).as_str());
    out.append("}");
    let mut context = String::new();
    if let Some(reference) = &event.context {
        context.append(",\"context\":");
        context.append(context_json(reference).as_str());
        proof {
            assert(context@ =~= ",\"context\":"@ + context_json_of(*reference));
        }
    }
    out.append(context.as_str());
    out.append(",\"privacy\":\"");
    out.append(names::privacy_name(event.privacy));
    out.append("\",\"data\":");
    out.append(data_json(&event.data).as_str());
    out.append("}");
    out
}

/// The columns of a stored event.
pub struct EventRow {
    pub id: String,
    pub spec_version: String,
    pub event_type: String,
    pub source: String,
    pub occurred_at: String,
    pub received_at: String,
    pub actor: String,
    pub adapter_id: String,
    pub adapter_version: String,
    pub adapter_instance_id: String,
    pub sequence_no: i64,
    pub context_json: Option<String>,
    pub privacy: String,
    pub data_json: String,
    pub canonical_json: String,
}

/// Why an event cannot be stored: one of its times has no text, or its sequence number
/// does not fit into the column.
pub open spec fn event_row_fault(event: Event) -> Option<StorageError> {
    if event.occurred_at.written() is None || event.received_at.written() is None {
        Some(StorageError::Time)
    } else if event.adapter.sequence_no > i64::MAX {
        Some(StorageError::Validation(ValidationError::SequenceOutOfRange))
    } else {
        None
    }
}

pub open spec fn is_event_row(row: EventRow, event: Event) -> bool {
    &&& row.id@ == ids::id_text(event.id.value)
    &&& row.spec_version == event.spec_version
    &&& row.event_type@ == names::event_type_text(event.event_type)@
    &&& row.source == event.source
    &&& Some(row.occurred_at@) == event.occurred_at.written()
    &&& Timestamp::read_as(row.occurred_at@) == Some(event.occurred_at)
    &&& Some(row.received_at@) == event.received_at.written()
    &&& Timestamp::read_as(row.received_at@) == Some(event.received_at)
    &&& row.actor@ == names::actor_text(event.actor)@
    &&& row.adapter_id == event.adapter.id
    &&& row.adapter_version == event.adapter.version
    &&& row.adapter_instance_id@ == ids::id_text(event.adapter.instance_id.value)
    &&& row.sequence_no == event.adapter.sequence_no
    &&& row.context_json is Some <==> event.context is Some
    &&& row.context_json is Some ==> row.context_json->0@ == context_json_of(event.context->0)
    &&& row.privacy@ == names::privacy_text(event.privacy)@
    &&& row.data_json@ == data_json_of(event.data)
    &&& row.canonical_json@ == event_json_of(event, row.occurred_at@, row.received_at@)
}

/// The columns in which an event is stored.
pub fn event_row(event: &Event) -> (r: Result<EventRow, StorageError>)
    ensures
        match r {
            Ok(row) => event_row_fault(*event) is None && is_event_row(row, *event),
            Err(error) => event_row_fault(*event) == Some(error),
        },
{
    let occurred_at = match rows::format_ts(event.occurred_at) {
        Ok(value) => value,
        Err(error) => return Err(error),
    };
    let received_at = match rows::format_ts(event.received_at) {
        Ok(value) => value,
        Err(error) => return Err(error),
    };
    if event.adapter.sequence_no > i64::MAX as u64 {
        return Err(StorageError::Validation(ValidationError::SequenceOutOfRange));
    }
    let stored_context = match &event.context {
        Some(context) => Some(context_json(context)),
        None => None,
    };
    let canonical_json = event_json(event, occurred_at.as_str(), received_at.as_str());
    Ok(
        EventRow {
            id: event.id.to_text(),
            spec_version: event.spec_version.clone(),
            event_type: names::event_type_name(event.event_type).to_owned(),
            source: event.source.clone(),
            occurred_at,
            received_at,
            actor: names::actor_name(event.actor).to_owned(),
            adapter_id: event.adapter.id.clone(),
            adapter_version: event.adapter.version.clone(),
            adapter_instance_id: event.adapter.instance_id.to_text(),
            sequence_no: event.adapter.sequence_no as i64,
            context_json: stored_context,
            privacy: names::privacy_name(event.privacy).to_owned(),
            data_json: data_json(&event.data),
            canonical_json,
        },
    )
}

/// The greatest sequence number seen from an adapter instance.
pub fn last_sequence(known: Option<i64>, sequence_no: i64) -> (last: i64)
    ensures
        last == (match known {
            Some(value) => if value > sequence_no {
                value
            } else {
                sequence_no
            },
            None => sequence_no,
        }),
{
    match known {
        Some(value) => if value > sequence_no {
            value
        } else {
            sequence_no
        },
        None => sequence_no,
    }
}

/// Whether two payloads say the same.
pub open spec fn same_data(a: EventData, b: EventData) -> bool {
    match (a, b) {
        (
            EventData::Synthetic { label: p, counter: m },
            EventData::Synthetic { label: q, counter: n },
        ) => p@ == q@ && m == n,
        (
            EventData::BrowserResourceOpened { resource_id: p },
            EventData::BrowserResourceOpened { resource_id: q },
        ) => p == q,
        (
            EventData::VscodeWorkspaceOpened { resource_id: p },
            EventData::VscodeWorkspaceOpened { resource_id: q },
        ) => p == q,
        _ => false,
    }
}

pub open spec fn same_text(a: Option<String>, b: Option<String>) -> bool {
    match (a, b) {
        (Some(p), Some(q)) => p@ == q@,
        (None, None) => true,
        _ => false,
    }
}

/// Whether two events say the same.
pub open spec fn same_event(a: Event, b: Event) -> bool {
    &&& a.spec_version@ == b.spec_version@
    &&& a.id == b.id
    &&& a.event_type == b.event_type
    &&& a.source@ == b.source@
    &&& a.occurred_at == b.occurred_at
    &&& a.received_at == b.received_at
    &&& a.actor == b.actor
    &&& a.adapter.id@ == b.adapter.id@
    &&& a.adapter.version@ == b.adapter.version@
    &&& a.adapter.instance_id == b.adapter.instance_id
    &&& a.adapter.sequence_no == b.adapter.sequence_no
    &&& a.context is Some <==> b.context is Some
    &&& a.context is Some ==> same_text(a.context->0.project, b.context->0.project) && same_text(
        a.context->0.session,
        b.context->0.session,
    )
    &&& a.privacy == b.privacy
    &&& same_data(a.data, b.data)
}

proof fn payload_kinds_apart(a: EventData, b: EventData)
    requires
        data_json_of(a) == data_json_of(b),
    ensures
        a.kind() == b.kind(),
{
    reveal_strlit("{\"kind\":\"synthetic\",\"label\":");
    reveal_strlit("{\"kind\":\"browser_resource_opened\",\"resource_id\":\"");
    reveal_strlit("{\"kind\":\"vscode_workspace_opened\",\"resource_id\":\"");
    assert(a is Synthetic ==> data_json_of(a)[9] == 's');
    assert(b is Synthetic ==> data_json_of(b)[9] == 's');
    assert(a is BrowserResourceOpened ==> data_json_of(a)[9] == 'b');
    assert(b is BrowserResourceOpened ==> data_json_of(b)[9] == 'b');
    assert(a is VscodeWorkspaceOpened ==> data_json_of(a)[9] == 'v');
    assert(b is VscodeWorkspaceOpened ==> data_json_of(b)[9] == 'v');
}

proof fn same_number(m: int, n: int, x: Seq<char>)
    requires
        text::signed_decimal_of(m) + x == text::signed_decimal_of(n) + x,
    ensures
        m == n,
{
    let a = text::signed_decimal_of(m);
    let b = text::signed_decimal_of(n);
    assert((a + x).len() == (b + x).len());
    assert((a + x).take(a.len() as int) =~= a);
    assert((b + x).take(b.len() as int) =~= b);
    let p = if m < 0 { (-m) as nat } else { m as nat };
    let q = if n < 0 { (-n) as nat } else { n as nat };
    text::decimal_reads_back(p);
    text::decimal_reads_back(q);
    assert(text::decimal_of(p).len() > 0 && text::decimal_of(q).len() > 0);
    assert(text::is_digit(text::decimal_of(p)[0]) && text::is_digit(text::decimal_of(q)[0]));
    if m < 0 && n < 0 {
        json::same_rest(seq!['-'], text::decimal_of(p), text::decimal_of(q));
    } else if m < 0 || n < 0 {
        assert(a[0] == b[0]);
    }
}

/// A stored payload says what it was made of.
pub proof fn payloads_read_apart(a: EventData, b: EventData)
    requires
        data_json_of(a) == data_json_of(b),
    ensures
        same_data(a, b),
{
    payload_kinds_apart(a, b);
    match (a, b) {
        (
            EventData::Synthetic { label: p, counter: m },
            EventData::Synthetic { label: q, counter: n },
        ) => {
            let head = "{\"kind\":\"synthetic\",\"label\":"@;
            let middle = ",\"counter\":"@;
            let x = text::signed_decimal_of(m as int) + "}"@;
            let y = text::signed_decimal_of(n as int) + "}"@;
            assert(data_json_of(a) =~= head + (json::quoted(p@) + (middle + x)));
            assert(data_json_of(b) =~= head + (json::quoted(q@) + (middle + y)));
            json::same_rest(
                head,
                json::quoted(p@) + (middle + x),
                json::quoted(q@) + (middle + y),
            );
            json::strings_are_self_delimiting(p@, q@, middle + x, middle + y);
            json::same_rest(middle, x, y);
            same_number(m as int, n as int, "}"@);
        },
        (
            EventData::BrowserResourceOpened { resource_id: p },
            EventData::BrowserResourceOpened { resource_id: q },
        ) => {
            let head = "{\"kind\":\"browser_resource_opened\",\"resource_id\":\""@;
            same_tail_id(data_json_of(a), head, p.value, q.value);
        },
        (
            EventData::VscodeWorkspaceOpened { resource_id: p },
            EventData::VscodeWorkspaceOpened { resource_id: q },
        ) => {
            let head = "{\"kind\":\"vscode_workspace_opened\",\"resource_id\":\""@;
            same_tail_id(data_json_of(a), head, p.value, q.value);
        },
        _ => {},
    }
}

proof fn same_tail_id(json: Seq<char>, head: Seq<char>, a: u128, b: u128)
    requires
        json == head + ids::id_text(a) + "\"}"@,
        json == head + ids::id_text(b) + "\"}"@,
    ensures
        a == b,
{
    assert(head + ids::id_text(a) + "\"}"@ =~= head + (ids::id_text(a) + "\"}"@));
    assert(head + ids::id_text(b) + "\"}"@ =~= head + (ids::id_text(b) + "\"}"@));
    json::same_rest(head, ids::id_text(a) + "\"}"@, ids::id_text(b) + "\"}"@);
    ids::texts_are_self_delimiting(a, b, "\"}"@, "\"}"@);
}

/// What a context object holds behind its opening brace, after a project was written or
/// not.
spec fn context_rest(context: ContextReference) -> Seq<char> {
    match context.session {
        Some(session) => if context.project is Some {
            ",\"session\":"@ + (json::quoted(session@) + "}"@)
        } else {
            "{\"session\":"@ + (json::quoted(session@) + "}"@)
        },
        None => if context.project is Some {
            "}"@
        } else {
            "{}"@
        },
    }
}

spec fn context_text(context: ContextReference) -> Seq<char> {
    match context.project {
        Some(project) => "{\"project\":"@ + (json::quoted(project@) + context_rest(context)),
        None => context_rest(context),
    }
}

proof fn context_is_text(context: ContextReference)
    ensures
        context_json_of(context) == context_text(context),
{
    assert(context_json_of(context) =~= context_text(context));
}

proof fn sessions_apart(a: ContextReference, b: ContextReference)
    requires
        a.project is Some == b.project is Some,
        context_rest(a) == context_rest(b),
    ensures
        same_text(a.session, b.session),
{
    reveal_strlit(",\"session\":");
    reveal_strlit("{\"session\":");
    reveal_strlit("}");
    reveal_strlit("{}");
    let head = if a.project is Some { ",\"session\":"@ } else { "{\"session\":"@ };
    match (a.session, b.session) {
        (Some(p), Some(q)) => {
            json::same_rest(head, json::quoted(p@) + "}"@, json::quoted(q@) + "}"@);
            json::strings_are_self_delimiting(p@, q@, "}"@, "}"@);
        },
        (Some(p), None) => {
            assert(context_rest(a).len() >= 11);
        },
        (None, Some(q)) => {
            assert(context_rest(b).len() >= 11);
        },
        (None, None) => {},
    }
}

/// A stored context says what it was made of.
pub proof fn contexts_read_apart(a: ContextReference, b: ContextReference)
    requires
        context_json_of(a) == context_json_of(b),
    ensures
        same_text(a.project, b.project),
        same_text(a.session, b.session),
{
    reveal_strlit("{\"project\":");
    reveal_strlit("{\"session\":");
    reveal_strlit("{}");
    context_is_text(a);
    context_is_text(b);
    assert(a.project is Some ==> context_text(a)[1] == '"' && context_text(a)[2] == 'p');
    assert(b.project is Some ==> context_text(b)[1] == '"' && context_text(b)[2] == 'p');
    assert(a.project is None ==> context_text(a)[1] == '}' || context_text(a)[2] == 's');
    assert(b.project is None ==> context_text(b)[1] == '}' || context_text(b)[2] == 's');
    match (a.project, b.project) {
        (Some(p), Some(q)) => {
            json::same_rest(
                "{\"project\":"@,
                json::quoted(p@) + context_rest(a),
                json::quoted(q@) + context_rest(b),
            );
            json::strings_are_self_delimiting(p@, q@, context_rest(a), context_rest(b));
        },
        _ => {},
    }
    sessions_apart(a, b);
}

/// A stored event says everything that the event said: two events that are stored in the
/// same columns say the same.
pub proof fn stored_events_keep_everything(row: EventRow, a: Event, b: Event)
    requires
        is_event_row(row, a),
        is_event_row(row, b),
    ensures
        same_event(a, b),
{
    let none = Seq::<char>::empty();
    assert(ids::id_text(a.id.value) + none =~= ids::id_text(a.id.value));
    assert(ids::id_text(b.id.value) + none =~= ids::id_text(b.id.value));
    ids::texts_are_self_delimiting(a.id.value, b.id.value, none, none);
    let p = a.adapter.instance_id.value;
    let q = b.adapter.instance_id.value;
    assert(ids::id_text(p) + none =~= ids::id_text(p));
    assert(ids::id_text(q) + none =~= ids::id_text(q));
    ids::texts_are_self_delimiting(p, q, none, none);
    names::event_type_text_distinct(a.event_type, b.event_type);
    names::actor_text_distinct(a.actor, b.actor);
    names::privacy_text_distinct(a.privacy, b.privacy);
    payloads_read_apart(a.data, b.data);
    if a.context is Some {
        contexts_read_apart(a.context->0, b.context->0);
    }
}

/// Whether two rows cannot both be among the events: the identifier is the key of the table,
/// and an adapter instance gives a sequence number once.
pub open spec fn clash(a: EventRow, b: EventRow) -> bool {
    ||| a.id@ == b.id@
    ||| a.adapter_instance_id@ == b.adapter_instance_id@ && a.sequence_no == b.sequence_no
}

/// The events after one was stored. One that clashes with an event that is there is refused,
/// and the events stay as they are.
pub open spec fn stored(rows: Seq<EventRow>, row: EventRow) -> Result<
    Seq<EventRow>,
    StorageError,
> {
    if exists|i: int| 0 <= i < rows.len() && clash(#[trigger] rows[i], row) {
        Err(operations::conflict(UniqueRecord::Event))
    } else {
        Ok(rows.push(row))
    }
}

/// A sequence number that an adapter instance gave before is refused as a duplicate,
/// whatever else the event says.
pub proof fn repeated_sequence_numbers_are_refused(
    rows: Seq<EventRow>,
    k: int,
    row: EventRow,
    first: Event,
    second: Event,
)
    requires
        0 <= k < rows.len(),
        is_event_row(rows[k], first),
        is_event_row(row, second),
        first.adapter.instance_id == second.adapter.instance_id,
        first.adapter.sequence_no == second.adapter.sequence_no,
    ensures
        stored(rows, row) == Err::<Seq<EventRow>, StorageError>(StorageError::DuplicateEvent),
{
    assert(clash(rows[k], row));
}

/// Events that are apart stay apart: nothing that is stored clashes with another.
pub proof fn stored_events_never_clash(rows: Seq<EventRow>, row: EventRow)
    requires
        forall|i: int, j: int|
            0 <= i < j < rows.len() ==> !clash(#[trigger] rows[i], #[trigger] rows[j]),
        stored(rows, row) is Ok,
    ensures
        forall|i: int, j: int|
            0 <= i < j < stored(rows, row)->Ok_0.len() ==> !clash(
                #[trigger] stored(rows, row)->Ok_0[i],
                #[trigger] stored(rows, row)->Ok_0[j],
            ),
{
}

} // verus!
