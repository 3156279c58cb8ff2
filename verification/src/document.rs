//! The JSON form of agent files and of the messages of synchronization.
//!
//! Every record is an object. A member that a record may lack is left out
//! where it is lacking; on reading, a member that is left out, or is
//! `null`, is lacking. Members that the format does not know are passed
//! over. A temperature is a number with a decimal point in a document and
//! a whole number of thousandths in the library.

use crate::af::{
    AgentExport, AgentExportModel, AgentFileMetadata, AgentFileModel, AgentFileV1,
    AgentStateExport, AgentStateModel, BlockExport, ExportedBlock, ExportedTool, FileExport,
    FileMetadataModel, FileModel, GroupExport, GroupModel, McpServerExport, McpServerModel,
    MemoryExport, MemoryExportModel, ModelConfig, ModelConfigModel, SourceExport, SourceModel,
    ToolExport, ToolRule, ToolRuleModel,
};
use crate::clock::Timestamp;
use crate::json::{no_members, Json, JsonValue, ObjectBuilder};
use crate::message::{
    empty_object, lemma_role_round_trip, role_name, role_of_name, Message, MessageModel,
    MessageRole, ToolCallInfo, ToolCallModel,
};
use crate::sync::{
    ConflictInfo, ConflictModel, SyncRequest, SyncRequestModel, SyncResponse, SyncResponseModel,
};
use crate::tool::{texts_json, texts_to_json, SchemaModel, ToolSchema};
use crate::number::{
    format_thousandths, lemma_thousandths_round_trip, parse_thousandths, thousandths_of,
    thousandths_text,
};
use vstd::prelude::*;

verus! {

/// The text of the member `key` that a record may lack: `None` where the
/// member is no text.
pub open spec fn read_opt_text(j: JsonValue, key: Seq<char>) -> Option<Option<Seq<char>>> {
    match j.present(key) {
        None => Some(None),
        Some(v) => match v.as_text() {
            Some(t) => Some(Some(t)),
            None => None,
        },
    }
}

/// The size of the member `key` that a record may lack: `None` where the
/// member is no size.
pub open spec fn read_opt_size(j: JsonValue, key: Seq<char>) -> Option<Option<usize>> {
    match j.present(key) {
        None => Some(None),
        Some(v) => match v.as_uint() {
            Some(n) => if n <= usize::MAX {
                Some(Some(n as usize))
            } else {
                None
            },
            None => None,
        },
    }
}

/// The thousandths that a number denotes: a whole number that is not
/// negative, or a numeral with a decimal point.
pub open spec fn thousandths_of_json(v: JsonValue) -> Option<u32> {
    match v {
        JsonValue::Number(n) => if 0 <= n && n * 1000 <= u32::MAX {
            Some((n * 1000) as u32)
        } else {
            None
        },
        JsonValue::Real(text) => match thousandths_of(text) {
            Some(t) => if t <= u32::MAX {
                Some(t as u32)
            } else {
                None
            },
            None => None,
        },
        _ => None,
    }
}

/// The temperature of the member `key` that a record may lack, in
/// thousandths: `None` where the member is no such number.
pub open spec fn read_opt_thousandths(j: JsonValue, key: Seq<char>) -> Option<Option<u32>> {
    match j.present(key) {
        None => Some(None),
        Some(v) => match thousandths_of_json(v) {
            Some(t) => Some(Some(t)),
            None => None,
        },
    }
}

/// The texts that an array of texts holds.
pub open spec fn texts_of_json(v: JsonValue) -> Option<Seq<Seq<char>>> {
    match v {
        JsonValue::Array(items) => if forall|i: int|
            0 <= i < items.len() ==> (#[trigger] items[i]).as_text() is Some {
            Some(Seq::new(items.len(), |i: int| items[i].as_text()->0))
        } else {
            None
        },
        _ => None,
    }
}

/// The texts of the member `key`.
pub open spec fn read_texts(j: JsonValue, key: Seq<char>) -> Option<Seq<Seq<char>>> {
    match j.member(key) {
        Some(v) => texts_of_json(v),
        None => None,
    }
}

/// The texts of the member `key`, and none where the member is left out.
pub open spec fn read_texts_or_none(j: JsonValue, key: Seq<char>) -> Option<Seq<Seq<char>>> {
    match j.member(key) {
        Some(v) => texts_of_json(v),
        None => Some(Seq::empty()),
    }
}

/// A text, or `null` where there is none.
pub open spec fn text_or_null(text: Option<Seq<char>>) -> JsonValue {
    match text {
        Some(t) => JsonValue::Text(t),
        None => JsonValue::Null,
    }
}

/// An array of texts is read as its texts.
pub proof fn lemma_texts_round_trip(texts: Seq<Seq<char>>)
    ensures
        texts_of_json(texts_json(texts)) == Some(texts),
{
    let items = Seq::new(texts.len(), |i: int| JsonValue::Text(texts[i]));
    assert(Seq::new(items.len(), |i: int| items[i].as_text()->0) =~= texts);
}

/// The numeral of a temperature is read as the temperature.
pub proof fn lemma_temperature_round_trip(t: u32)
    ensures
        thousandths_of_json(JsonValue::Real(thousandths_text(t as nat))) == Some(t),
{
    lemma_thousandths_round_trip(t as nat);
}

fn get_opt_text(j: &Json, key: &str) -> (r: Option<Option<String>>)
    ensures
        r.deep_view() == read_opt_text(j@, key@),
{
    match j.get_present(key) {
        None => Some(None),
        Some(v) => match v.as_str() {
            Some(t) => Some(Some(t.to_owned())),
            None => None,
        },
    }
}

fn get_opt_size(j: &Json, key: &str) -> (r: Option<Option<usize>>)
    ensures
        r == read_opt_size(j@, key@),
{
    match j.get_present(key) {
        None => Some(None),
        Some(v) => match v.as_u64() {
            Some(n) => if n <= usize::MAX as u64 {
                Some(Some(n as usize))
            } else {
                None
            },
            None => None,
        },
    }
}

pub(crate) fn thousandths(v: &Json) -> (r: Option<u32>)
    ensures
        r == thousandths_of_json(v@),
{
    match v {
        Json::UInt(n) => if *n <= 4294967 {
            Some((*n * 1000) as u32)
        } else {
            None
        },
        Json::Int(n) => if 0 <= *n && *n <= 4294967 {
            Some((*n * 1000) as u32)
        } else {
            None
        },
        Json::Real(text) => parse_thousandths(text.as_str()),
        _ => None,
    }
}

fn get_opt_thousandths(j: &Json, key: &str) -> (r: Option<Option<u32>>)
    ensures
        r == read_opt_thousandths(j@, key@),
{
    match j.get_present(key) {
        None => Some(None),
        Some(v) => match thousandths(v) {
            Some(t) => Some(Some(t)),
            None => None,
        },
    }
}

/// The texts that an array of texts holds.
pub fn decode_texts(j: &Json) -> (r: Option<Vec<String>>)
    ensures
        r.deep_view() == texts_of_json(j@),
{
    let items = match j.as_array() {
        Some(items) => items,
        None => {
            return None;
        },
    };
    let ghost all = items.deep_view();
    let mut out: Vec<String> = Vec::new();
    let mut i: usize = 0;
    while i < items.len()
        invariant
            i <= items.len(),
            all == items.deep_view(),
            j@ == JsonValue::Array(all),
            out.len() == i,
            forall|k: int| 0 <= k < i ==> (#[trigger] all[k]).as_text() == Some(out@[k]@),
        decreases items.len() - i,
    {
        match items[i].as_str() {
            Some(t) => {
                out.push(t.to_owned());
            },
            None => {
                assert(all[i as int].as_text() is None);
                return None;
            },
        }
        i += 1;
    }
    assert(out.deep_view() =~= Seq::new(all.len(), |i: int| all[i].as_text()->0));
    Some(out)
}

fn get_texts(j: &Json, key: &str) -> (r: Option<Vec<String>>)
    ensures
        r.deep_view() == read_texts(j@, key@),
{
    match j.get(key) {
        Some(v) => decode_texts(v),
        None => None,
    }
}

fn get_texts_or_none(j: &Json, key: &str) -> (r: Option<Vec<String>>)
    ensures
        r.deep_view() == read_texts_or_none(j@, key@),
{
    match j.get(key) {
        Some(v) => decode_texts(v),
        None => {
            let none: Vec<String> = Vec::new();
            assert(none.deep_view() =~= Seq::<Seq<char>>::empty());
            Some(none)
        },
    }
}

fn encode_opt_text(text: &Option<String>) -> (j: Json)
    ensures
        j@ == text_or_null(text.deep_view()),
{
    match text {
        Some(t) => Json::Text(t.clone()),
        None => Json::Null,
    }
}

/// The member `key`, and an object without members where it is left out.
pub open spec fn member_or_empty(j: JsonValue, key: Seq<char>) -> JsonValue {
    match j.member(key) {
        Some(v) => v,
        None => empty_object(),
    }
}

/// The role that the member `key` names.
pub open spec fn read_role(j: JsonValue, key: Seq<char>) -> Option<MessageRole> {
    match j.text_member(key) {
        Some(name) => role_of_name(name),
        None => None,
    }
}

fn get_or_empty(j: &Json, key: &str) -> (r: Json)
    ensures
        r@ == member_or_empty(j@, key@),
{
    match j.get(key) {
        Some(v) => v.clone(),
        None => Json::empty_object(),
    }
}

fn get_role(j: &Json, key: &str) -> (r: Option<MessageRole>)
    ensures
        r == read_role(j@, key@),
{
    match j.get_str(key) {
        Some(name) => MessageRole::from_name(name),
        None => None,
    }
}

/// The members of a tool call in a document.
pub open spec fn tool_call_members(call: ToolCallModel) -> Map<Seq<char>, JsonValue> {
    let members = no_members().insert("id"@, JsonValue::Text(call.id));
    let members = members.insert("name"@, JsonValue::Text(call.name));
    let members = members.insert("arguments"@, call.arguments);
    members
}

/// A tool call as a JSON object.
pub open spec fn tool_call_json(call: ToolCallModel) -> JsonValue {
    JsonValue::Object(tool_call_members(call))
}

/// A tool call that a JSON value holds, or `None` where the value is
/// no such record.
pub open spec fn tool_call_of_json(j: JsonValue) -> Option<ToolCallModel> {
    match (
        j.text_member("id"@),
        j.text_member("name"@),
        j.member("arguments"@),
    ) {
        (
            Some(id),
            Some(name),
            Some(arguments),
        ) => Some(
            ToolCallModel {
                id,
                name,
                arguments,
            },
        ),
        _ => None,
    }
}

/// A tool call can be written and read again, as every one can.
pub open spec fn tool_call_fits(call: ToolCallModel) -> bool {
    true
}

/// A list of records as a JSON array.
pub open spec fn tool_calls_json(list: Seq<ToolCallModel>) -> JsonValue {
    JsonValue::Array(Seq::new(list.len(), |i: int| tool_call_json(list[i])))
}

/// The records that a JSON array holds, or `None` where the value is no
/// array of such records.
pub open spec fn tool_calls_of_json(v: JsonValue) -> Option<Seq<ToolCallModel>> {
    match v {
        JsonValue::Array(items) => if forall|i: int|
            0 <= i < items.len() ==> tool_call_of_json(#[trigger] items[i]) is Some {
            Some(Seq::new(items.len(), |i: int| tool_call_of_json(items[i])->0))
        } else {
            None
        },
        _ => None,
    }
}

/// The records of the member `key` that a record may lack.
pub open spec fn read_opt_tool_calls(j: JsonValue, key: Seq<char>) -> Option<
    Option<Seq<ToolCallModel>>,
> {
    match j.present(key) {
        None => Some(None),
        Some(v) => match tool_calls_of_json(v) {
            Some(list) => Some(Some(list)),
            None => None,
        },
    }
}

/// Every record of the list can be written and read again.
pub open spec fn tool_calls_fit(list: Seq<ToolCallModel>) -> bool {
    forall|i: int| 0 <= i < list.len() ==> tool_call_fits(#[trigger] list[i])
}

/// Writes a tool call as a JSON object.
pub fn encode_tool_call(call: &ToolCallInfo) -> (j: Json)
    ensures
        j@ == tool_call_json(call@),
{
    let mut object = ObjectBuilder::new();
    object.put("id", Json::Text(call.id.clone()));
    object.put("name", Json::Text(call.name.clone()));
    object.put("arguments", call.arguments.clone());
    object.build()
}

/// Reads a tool call from a JSON value.
pub fn decode_tool_call(j: &Json) -> (r: Option<ToolCallInfo>)
    ensures
        r.deep_view() == tool_call_of_json(j@),
{
    let id = match j.get_str("id") {
        Some(v) => v.to_owned(),
        None => {
            return None;
        },
    };
    let name = match j.get_str("name") {
        Some(v) => v.to_owned(),
        None => {
            return None;
        },
    };
    let arguments = match j.get("arguments") {
        Some(v) => v.clone(),
        None => {
            return None;
        },
    };
    Some(ToolCallInfo { id, name, arguments })
}

/// Writes a list of records as a JSON array.
pub fn encode_tool_calls(list: &Vec<ToolCallInfo>) -> (j: Json)
    ensures
        j@ == tool_calls_json(list.deep_view()),
{
    let mut items: Vec<Json> = Vec::new();
    let mut i: usize = 0;
    while i < list.len()
        invariant
            i <= list.len(),
            items.len() == i,
            forall|k: int| 0 <= k < i ==> items@[k]@ == tool_call_json(list@[k]@),
        decreases list.len() - i,
    {
        items.push(encode_tool_call(&list[i]));
        i += 1;
    }
    assert(items.deep_view() =~= Seq::new(
        list.deep_view().len(),
        |i: int| tool_call_json(list.deep_view()[i]),
    ));
    Json::array(items)
}

/// Reads a list of records from a JSON array.
pub fn decode_tool_calls(j: &Json) -> (r: Option<Vec<ToolCallInfo>>)
    ensures
        r.deep_view() == tool_calls_of_json(j@),
{
    let items = match j.as_array() {
        Some(items) => items,
        None => {
            return None;
        },
    };
    let ghost all = items.deep_view();
    let mut out: Vec<ToolCallInfo> = Vec::new();
    let mut i: usize = 0;
    while i < items.len()
        invariant
            i <= items.len(),
            all == items.deep_view(),
            j@ == JsonValue::Array(all),
            out.len() == i,
            forall|k: int|
                0 <= k < i ==> tool_call_of_json(#[trigger] all[k]) == Some(out@[k]@),
        decreases items.len() - i,
    {
        match decode_tool_call(&items[i]) {
            Some(record) => {
                out.push(record);
            },
            None => {
                assert(tool_call_of_json(all[i as int]) is None);
                return None;
            },
        }
        i += 1;
    }
    assert(out.deep_view() =~= Seq::new(
        all.len(),
        |i: int| tool_call_of_json(all[i])->0,
    ));
    Some(out)
}

fn get_opt_tool_calls(j: &Json, key: &str) -> (r: Option<Option<Vec<ToolCallInfo>>>)
    ensures
        r.deep_view() == read_opt_tool_calls(j@, key@),
{
    match j.get_present(key) {
        None => Some(None),
        Some(v) => match decode_tool_calls(v) {
            Some(list) => Some(Some(list)),
            None => None,
        },
    }
}

/// The names of the members of a tool call differ.
pub proof fn lemma_tool_call_keys()
    ensures
        "id"@ != "name"@,
        "id"@ != "arguments"@,
        "name"@ != "arguments"@,
{
    reveal_strlit("id");
    reveal_strlit("name");
    reveal_strlit("arguments");
    assert("id"@.len() == 2);
    assert("name"@.len() == 4);
    assert("arguments"@.len() == 9);
}

/// A tool call that is written is read as it was.
pub proof fn lemma_tool_call_round_trip(call: ToolCallModel)
    requires
        tool_call_fits(call),
    ensures
        tool_call_of_json(tool_call_json(call)) == Some(call),
{
    lemma_tool_call_keys();
}

/// A list of records that is written is read as it was.
pub proof fn lemma_tool_calls_round_trip(list: Seq<ToolCallModel>)
    requires
        tool_calls_fit(list),
    ensures
        tool_calls_of_json(tool_calls_json(list)) == Some(list),
{
    let items = Seq::new(list.len(), |i: int| tool_call_json(list[i]));
    assert forall|i: int| 0 <= i < items.len() implies tool_call_of_json(#[trigger] items[i])
        == Some(list[i]) by {
        lemma_tool_call_round_trip(list[i]);
    }
    assert(Seq::new(items.len(), |i: int| tool_call_of_json(items[i])->0) =~= list);
}

/// What a `ToolCallInfo` holds can be written and read again.
pub proof fn lemma_tool_call_view_fits(call: ToolCallInfo)
    ensures
        tool_call_fits(call@),
{
}

/// The members of a message in a document.
pub open spec fn message_members(m: MessageModel) -> Map<Seq<char>, JsonValue> {
    let members = no_members().insert("id"@, JsonValue::Text(m.id));
    let members = members.insert("role"@, JsonValue::Text(role_name(m.role)));
    let members = members.insert("content"@, JsonValue::Text(m.content));
    let members = match m.tool_calls {
        Some(v) => members.insert("tool_calls"@, tool_calls_json(v)),
        None => members,
    };
    let members = match m.tool_call_id {
        Some(v) => members.insert("tool_call_id"@, JsonValue::Text(v)),
        None => members,
    };
    let members = members.insert("timestamp"@, JsonValue::Text(m.timestamp));
    let members = members.insert("metadata"@, m.metadata);
    members
}

/// A message as a JSON object.
pub open spec fn message_json(m: MessageModel) -> JsonValue {
    JsonValue::Object(message_members(m))
}

/// A message that a JSON value holds, or `None` where the value is
/// no such record.
pub open spec fn message_of_json(j: JsonValue) -> Option<MessageModel> {
    match (
        j.text_member("id"@),
        read_role(j, "role"@),
        j.text_member("content"@),
        read_opt_tool_calls(j, "tool_calls"@),
        read_opt_text(j, "tool_call_id"@),
        j.text_member("timestamp"@),
        Some(member_or_empty(j, "metadata"@)),
    ) {
        (
            Some(id),
            Some(role),
            Some(content),
            Some(tool_calls),
            Some(tool_call_id),
            Some(timestamp),
            Some(metadata),
        ) => Some(
            MessageModel {
                id,
                role,
                content,
                tool_calls,
                tool_call_id,
                timestamp,
                metadata,
            },
        ),
        _ => None,
    }
}

/// A message can be written and read again: the records in it can be
/// written and read again.
pub open spec fn message_fits(m: MessageModel) -> bool {
    &&& (m.tool_calls matches Some(v) ==> tool_calls_fit(v))
}

/// A list of records as a JSON array.
pub open spec fn messages_json(list: Seq<MessageModel>) -> JsonValue {
    JsonValue::Array(Seq::new(list.len(), |i: int| message_json(list[i])))
}

/// The records that a JSON array holds, or `None` where the value is no
/// array of such records.
pub open spec fn messages_of_json(v: JsonValue) -> Option<Seq<MessageModel>> {
    match v {
        JsonValue::Array(items) => if forall|i: int|
            0 <= i < items.len() ==> message_of_json(#[trigger] items[i]) is Some {
            Some(Seq::new(items.len(), |i: int| message_of_json(items[i])->0))
        } else {
            None
        },
        _ => None,
    }
}

/// The records that the member `key` holds.
pub open spec fn read_messages(j: JsonValue, key: Seq<char>) -> Option<Seq<MessageModel>> {
    match j.member(key) {
        Some(v) => messages_of_json(v),
        None => None,
    }
}

/// Every record of the list can be written and read again.
pub open spec fn messages_fit(list: Seq<MessageModel>) -> bool {
    forall|i: int| 0 <= i < list.len() ==> message_fits(#[trigger] list[i])
}

/// Writes a message as a JSON object.
pub fn encode_message(m: &Message) -> (j: Json)
    ensures
        j@ == message_json(m@),
{
    let mut object = ObjectBuilder::new();
    object.put("id", Json::Text(m.id.clone()));
    object.put("role", Json::text(m.role.name()));
    object.put("content", Json::Text(m.content.clone()));
    match &m.tool_calls {
        Some(v) => {
            object.put("tool_calls", encode_tool_calls(v));
        },
        None => {},
    }
    match &m.tool_call_id {
        Some(v) => {
            object.put("tool_call_id", Json::Text(v.clone()));
        },
        None => {},
    }
    object.put("timestamp", Json::Text(m.timestamp.text.clone()));
    object.put("metadata", m.metadata.clone());
    object.build()
}

/// Reads a message from a JSON value.
pub fn decode_message(j: &Json) -> (r: Option<Message>)
    ensures
        r.deep_view() == message_of_json(j@),
{
    let id = match j.get_str("id") {
        Some(v) => v.to_owned(),
        None => {
            return None;
        },
    };
    let role = match get_role(j, "role") {
        Some(v) => v,
        None => {
            return None;
        },
    };
    let content = match j.get_str("content") {
        Some(v) => v.to_owned(),
        None => {
            return None;
        },
    };
    let tool_calls = match get_opt_tool_calls(j, "tool_calls") {
        Some(v) => v,
        None => {
            return None;
        },
    };
    let tool_call_id = match get_opt_text(j, "tool_call_id") {
        Some(v) => v,
        None => {
            return None;
        },
    };
    let timestamp = match j.get_str("timestamp") {
        Some(v) => Timestamp { text: v.to_owned() },
        None => {
            return None;
        },
    };
    let metadata = get_or_empty(j, "metadata");
    Some(Message { id, role, content, tool_calls, tool_call_id, timestamp, metadata })
}

/// Writes a list of records as a JSON array.
pub fn encode_messages(list: &Vec<Message>) -> (j: Json)
    ensures
        j@ == messages_json(list.deep_view()),
{
    let mut items: Vec<Json> = Vec::new();
    let mut i: usize = 0;
    while i < list.len()
        invariant
            i <= list.len(),
            items.len() == i,
            forall|k: int| 0 <= k < i ==> items@[k]@ == message_json(list@[k]@),
        decreases list.len() - i,
    {
        items.push(encode_message(&list[i]));
        i += 1;
    }
    assert(items.deep_view() =~= Seq::new(
        list.deep_view().len(),
        |i: int| message_json(list.deep_view()[i]),
    ));
    Json::array(items)
}

/// Reads a list of records from a JSON array.
pub fn decode_messages(j: &Json) -> (r: Option<Vec<Message>>)
    ensures
        r.deep_view() == messages_of_json(j@),
{
    let items = match j.as_array() {
        Some(items) => items,
        None => {
            return None;
        },
    };
    let ghost all = items.deep_view();
    let mut out: Vec<Message> = Vec::new();
    let mut i: usize = 0;
    while i < items.len()
        invariant
            i <= items.len(),
            all == items.deep_view(),
            j@ == JsonValue::Array(all),
            out.len() == i,
            forall|k: int|
                0 <= k < i ==> message_of_json(#[trigger] all[k]) == Some(out@[k]@),
        decreases items.len() - i,
    {
        match decode_message(&items[i]) {
            Some(record) => {
                out.push(record);
            },
            None => {
                assert(message_of_json(all[i as int]) is None);
                return None;
            },
        }
        i += 1;
    }
    assert(out.deep_view() =~= Seq::new(
        all.len(),
        |i: int| message_of_json(all[i])->0,
    ));
    Some(out)
}

fn get_messages(j: &Json, key: &str) -> (r: Option<Vec<Message>>)
    ensures
        r.deep_view() == read_messages(j@, key@),
{
    match j.get(key) {
        Some(v) => decode_messages(v),
        None => None,
    }
}

/// The names of the members of a message differ.
pub proof fn lemma_message_keys()
    ensures
        "id"@ != "role"@,
        "id"@ != "content"@,
        "id"@ != "tool_calls"@,
        "id"@ != "tool_call_id"@,
        "id"@ != "timestamp"@,
        "id"@ != "metadata"@,
        "role"@ != "content"@,
        "role"@ != "tool_calls"@,
        "role"@ != "tool_call_id"@,
        "role"@ != "timestamp"@,
        "role"@ != "metadata"@,
        "content"@ != "tool_calls"@,
        "content"@ != "tool_call_id"@,
        "content"@ != "timestamp"@,
        "content"@ != "metadata"@,
        "tool_calls"@ != "tool_call_id"@,
        "tool_calls"@ != "timestamp"@,
        "tool_calls"@ != "metadata"@,
        "tool_call_id"@ != "timestamp"@,
        "tool_call_id"@ != "metadata"@,
        "timestamp"@ != "metadata"@,
{
    reveal_strlit("id");
    reveal_strlit("role");
    reveal_strlit("content");
    reveal_strlit("tool_calls");
    reveal_strlit("tool_call_id");
    reveal_strlit("timestamp");
    reveal_strlit("metadata");
    assert("id"@.len() == 2);
    assert("role"@.len() == 4);
    assert("content"@.len() == 7);
    assert("tool_calls"@.len() == 10);
    assert("tool_call_id"@.len() == 12);
    assert("timestamp"@.len() == 9);
    assert("metadata"@.len() == 8);
}

/// A message that is written is read as it was.
pub proof fn lemma_message_round_trip(m: MessageModel)
    requires
        message_fits(m),
    ensures
        message_of_json(message_json(m)) == Some(m),
{
    lemma_message_keys();
    lemma_role_round_trip(m.role);
    match m.tool_calls {
        Some(v) => {
            lemma_tool_calls_round_trip(v);
        },
        None => {},
    }
}

/// A list of records that is written is read as it was.
pub proof fn lemma_messages_round_trip(list: Seq<MessageModel>)
    requires
        messages_fit(list),
    ensures
        messages_of_json(messages_json(list)) == Some(list),
{
    let items = Seq::new(list.len(), |i: int| message_json(list[i]));
    assert forall|i: int| 0 <= i < items.len() implies message_of_json(#[trigger] items[i])
        == Some(list[i]) by {
        lemma_message_round_trip(list[i]);
    }
    assert(Seq::new(items.len(), |i: int| message_of_json(items[i])->0) =~= list);
}

/// What a `Message` holds can be written and read again.
pub proof fn lemma_message_view_fits(m: Message)
    ensures
        message_fits(m@),
{
    match m.tool_calls {
        Some(v) => {
            assert forall|i: int| 0 <= i < v.deep_view().len() implies tool_call_fits(
                #[trigger] v.deep_view()[i],
            ) by {
                lemma_tool_call_view_fits(v@[i]);
            }
        },
        None => {},
    }
}

/// The members of the schema of a tool in a document.
pub open spec fn schema_members(s: SchemaModel) -> Map<Seq<char>, JsonValue> {
    let members = no_members().insert("name"@, JsonValue::Text(s.name));
    let members = members.insert("description"@, JsonValue::Text(s.description));
    let members = members.insert("parameters"@, s.parameters);
    let members = members.insert("required"@, texts_json(s.required));
    members
}

/// The schema of a tool as a JSON object.
pub open spec fn schema_json(s: SchemaModel) -> JsonValue {
    JsonValue::Object(schema_members(s))
}

/// The schema of a tool that a JSON value holds, or `None` where the value is
/// no such record.
pub open spec fn schema_of_json(j: JsonValue) -> Option<SchemaModel> {
    match (
        j.text_member("name"@),
        j.text_member("description"@),
        j.member("parameters"@),
        read_texts_or_none(j, "required"@),
    ) {
        (
            Some(name),
            Some(description),
            Some(parameters),
            Some(required),
        ) => Some(
            SchemaModel {
                name,
                description,
                parameters,
                required,
            },
        ),
        _ => None,
    }
}

/// The schema of a tool that the member `key` holds.
pub open spec fn read_schema(j: JsonValue, key: Seq<char>) -> Option<SchemaModel> {
    match j.member(key) {
        Some(v) => schema_of_json(v),
        None => None,
    }
}

/// The schema of a tool can be written and read again, as every one can.
pub open spec fn schema_fits(s: SchemaModel) -> bool {
    true
}

/// Writes the schema of a tool as a JSON object.
pub fn encode_schema(s: &ToolSchema) -> (j: Json)
    ensures
        j@ == schema_json(s@),
{
    let mut object = ObjectBuilder::new();
    object.put("name", Json::Text(s.name.clone()));
    object.put("description", Json::Text(s.description.clone()));
    object.put("parameters", s.parameters.clone());
    object.put("required", texts_to_json(&s.required));
    object.build()
}

/// Reads the schema of a tool from a JSON value.
pub fn decode_schema(j: &Json) -> (r: Option<ToolSchema>)
    ensures
        r.deep_view() == schema_of_json(j@),
{
    let name = match j.get_str("name") {
        Some(v) => v.to_owned(),
        None => {
            return None;
        },
    };
    let description = match j.get_str("description") {
        Some(v) => v.to_owned(),
        None => {
            return None;
        },
    };
    let parameters = match j.get("parameters") {
        Some(v) => v.clone(),
        None => {
            return None;
        },
    };
    let required = match get_texts_or_none(j, "required") {
        Some(v) => v,
        None => {
            return None;
        },
    };
    Some(ToolSchema { name, description, parameters, required })
}

fn get_schema(j: &Json, key: &str) -> (r: Option<ToolSchema>)
    ensures
        r.deep_view() == read_schema(j@, key@),
{
    match j.get(key) {
        Some(v) => decode_schema(v),
        None => None,
    }
}

/// The names of the members of the schema of a tool differ.
pub proof fn lemma_schema_keys()
    ensures
        "name"@ != "description"@,
        "name"@ != "parameters"@,
        "name"@ != "required"@,
        "description"@ != "parameters"@,
        "description"@ != "required"@,
        "parameters"@ != "required"@,
{
    reveal_strlit("name");
    reveal_strlit("description");
    reveal_strlit("parameters");
    reveal_strlit("required");
    assert("name"@.len() == 4);
    assert("description"@.len() == 11);
    assert("parameters"@.len() == 10);
    assert("required"@.len() == 8);
}

/// The schema of a tool that is written is read as it was.
pub proof fn lemma_schema_round_trip(s: SchemaModel)
    requires
        schema_fits(s),
    ensures
        schema_of_json(schema_json(s)) == Some(s),
{
    lemma_schema_keys();
    lemma_texts_round_trip(s.required);
}

/// What a `ToolSchema` holds can be written and read again.
pub proof fn lemma_schema_view_fits(s: ToolSchema)
    ensures
        schema_fits(s@),
{
}

/// The members of a block in a document.
pub open spec fn block_members(b: ExportedBlock) -> Map<Seq<char>, JsonValue> {
    let members = no_members().insert("id"@, JsonValue::Text(b.id));
    let members = members.insert("label"@, JsonValue::Text(b.label));
    let members = members.insert("description"@, JsonValue::Text(b.description));
    let members = members.insert("value"@, JsonValue::Text(b.value));
    let members = members.insert("limit"@, JsonValue::Number(b.limit as int));
    members
}

/// A block as a JSON object.
pub open spec fn block_json(b: ExportedBlock) -> JsonValue {
    JsonValue::Object(block_members(b))
}

/// A block that a JSON value holds, or `None` where the value is
/// no such record.
pub open spec fn block_of_json(j: JsonValue) -> Option<ExportedBlock> {
    match (
        j.text_member("id"@),
        j.text_member("label"@),
        j.text_member("description"@),
        j.text_member("value"@),
        j.size_member("limit"@),
    ) {
        (
            Some(id),
            Some(label),
            Some(description),
            Some(value),
            Some(limit),
        ) => Some(
            ExportedBlock {
                id,
                label,
                description,
                value,
                limit: limit as nat,
            },
        ),
        _ => None,
    }
}

/// A block can be written and read again: its sizes fit `usize`.
pub open spec fn block_fits(b: ExportedBlock) -> bool {
    &&& b.limit <= usize::MAX
}

/// A list of records as a JSON array.
pub open spec fn blocks_json(list: Seq<ExportedBlock>) -> JsonValue {
    JsonValue::Array(Seq::new(list.len(), |i: int| block_json(list[i])))
}

/// The records that a JSON array holds, or `None` where the value is no
/// array of such records.
pub open spec fn blocks_of_json(v: JsonValue) -> Option<Seq<ExportedBlock>> {
    match v {
        JsonValue::Array(items) => if forall|i: int|
            0 <= i < items.len() ==> block_of_json(#[trigger] items[i]) is Some {
            Some(Seq::new(items.len(), |i: int| block_of_json(items[i])->0))
        } else {
            None
        },
        _ => None,
    }
}

/// The records that the member `key` holds.
pub open spec fn read_blocks(j: JsonValue, key: Seq<char>) -> Option<Seq<ExportedBlock>> {
    match j.member(key) {
        Some(v) => blocks_of_json(v),
        None => None,
    }
}

/// Every record of the list can be written and read again.
pub open spec fn blocks_fit(list: Seq<ExportedBlock>) -> bool {
    forall|i: int| 0 <= i < list.len() ==> block_fits(#[trigger] list[i])
}

/// Writes a block as a JSON object.
pub fn encode_block(b: &BlockExport) -> (j: Json)
    ensures
        j@ == block_json(b@),
{
    let mut object = ObjectBuilder::new();
    object.put("id", Json::Text(b.id.clone()));
    object.put("label", Json::Text(b.label.clone()));
    object.put("description", Json::Text(b.description.clone()));
    object.put("value", Json::Text(b.value.clone()));
    object.put("limit", Json::UInt(b.limit as u64));
    object.build()
}

/// Reads a block from a JSON value.
pub fn decode_block(j: &Json) -> (r: Option<BlockExport>)
    ensures
        r.deep_view() == block_of_json(j@),
{
    let id = match j.get_str("id") {
        Some(v) => v.to_owned(),
        None => {
            return None;
        },
    };
    let label = match j.get_str("label") {
        Some(v) => v.to_owned(),
        None => {
            return None;
        },
    };
    let description = match j.get_str("description") {
        Some(v) => v.to_owned(),
        None => {
            return None;
        },
    };
    let value = match j.get_str("value") {
        Some(v) => v.to_owned(),
        None => {
            return None;
        },
    };
    let limit = match j.get_usize("limit") {
        Some(v) => v,
        None => {
            return None;
        },
    };
    Some(BlockExport { id, label, description, value, limit })
}

/// Writes a list of records as a JSON array.
pub fn encode_blocks(list: &Vec<BlockExport>) -> (j: Json)
    ensures
        j@ == blocks_json(list.deep_view()),
{
    let mut items: Vec<Json> = Vec::new();
    let mut i: usize = 0;
    while i < list.len()
        invariant
            i <= list.len(),
            items.len() == i,
            forall|k: int| 0 <= k < i ==> items@[k]@ == block_json(list@[k]@),
        decreases list.len() - i,
    {
        items.push(encode_block(&list[i]));
        i += 1;
    }
    assert(items.deep_view() =~= Seq::new(
        list.deep_view().len(),
        |i: int| block_json(list.deep_view()[i]),
    ));
    Json::array(items)
}

/// Reads a list of records from a JSON array.
pub fn decode_blocks(j: &Json) -> (r: Option<Vec<BlockExport>>)
    ensures
        r.deep_view() == blocks_of_json(j@),
{
    let items = match j.as_array() {
        Some(items) => items,
        None => {
            return None;
        },
    };
    let ghost all = items.deep_view();
    let mut out: Vec<BlockExport> = Vec::new();
    let mut i: usize = 0;
    while i < items.len()
        invariant
            i <= items.len(),
            all == items.deep_view(),
            j@ == JsonValue::Array(all),
            out.len() == i,
            forall|k: int|
                0 <= k < i ==> block_of_json(#[trigger] all[k]) == Some(out@[k]@),
        decreases items.len() - i,
    {
        match decode_block(&items[i]) {
            Some(record) => {
                out.push(record);
            },
            None => {
                assert(block_of_json(all[i as int]) is None);
                return None;
            },
        }
        i += 1;
    }
    assert(out.deep_view() =~= Seq::new(
        all.len(),
        |i: int| block_of_json(all[i])->0,
    ));
    Some(out)
}

fn get_blocks(j: &Json, key: &str) -> (r: Option<Vec<BlockExport>>)
    ensures
        r.deep_view() == read_blocks(j@, key@),
{
    match j.get(key) {
        Some(v) => decode_blocks(v),
        None => None,
    }
}

/// The names of the members of a block differ.
pub proof fn lemma_block_keys()
    ensures
        "id"@ != "label"@,
        "id"@ != "description"@,
        "id"@ != "value"@,
        "id"@ != "limit"@,
        "label"@ != "description"@,
        "label"@ != "value"@,
        "label"@ != "limit"@,
        "description"@ != "value"@,
        "description"@ != "limit"@,
        "value"@ != "limit"@,
{
    reveal_strlit("id");
    reveal_strlit("label");
    reveal_strlit("description");
    reveal_strlit("value");
    reveal_strlit("limit");
    assert("id"@.len() == 2);
    assert("label"@.len() == 5);
    assert("description"@.len() == 11);
    assert("value"@.len() == 5);
    assert("limit"@.len() == 5);
    assert("label"@[0] != "value"@[0]);
    assert("label"@[1] != "limit"@[1]);
    assert("value"@[0] != "limit"@[0]);
}

/// A block that is written is read as it was.
pub proof fn lemma_block_round_trip(b: ExportedBlock)
    requires
        block_fits(b),
    ensures
        block_of_json(block_json(b)) == Some(b),
{
    lemma_block_keys();
}

/// A list of records that is written is read as it was.
pub proof fn lemma_blocks_round_trip(list: Seq<ExportedBlock>)
    requires
        blocks_fit(list),
    ensures
        blocks_of_json(blocks_json(list)) == Some(list),
{
    let items = Seq::new(list.len(), |i: int| block_json(list[i]));
    assert forall|i: int| 0 <= i < items.len() implies block_of_json(#[trigger] items[i])
        == Some(list[i]) by {
        lemma_block_round_trip(list[i]);
    }
    assert(Seq::new(items.len(), |i: int| block_of_json(items[i])->0) =~= list);
}

/// What a `BlockExport` holds can be written and read again.
pub proof fn lemma_block_view_fits(b: BlockExport)
    ensures
        block_fits(b@),
{
}

/// The members of a group in a document.
pub open spec fn group_members(g: GroupModel) -> Map<Seq<char>, JsonValue> {
    let members = no_members().insert("id"@, JsonValue::Text(g.id));
    let members = members.insert("name"@, JsonValue::Text(g.name));
    let members = members.insert("members"@, texts_json(g.members));
    members
}

/// A group as a JSON object.
pub open spec fn group_json(g: GroupModel) -> JsonValue {
    JsonValue::Object(group_members(g))
}

/// A group that a JSON value holds, or `None` where the value is
/// no such record.
pub open spec fn group_of_json(j: JsonValue) -> Option<GroupModel> {
    match (
        j.text_member("id"@),
        j.text_member("name"@),
        read_texts(j, "members"@),
    ) {
        (
            Some(id),
            Some(name),
            Some(members),
        ) => Some(
            GroupModel {
                id,
                name,
                members,
            },
        ),
        _ => None,
    }
}

/// A group can be written and read again, as every one can.
pub open spec fn group_fits(g: GroupModel) -> bool {
    true
}

/// A list of records as a JSON array.
pub open spec fn groups_json(list: Seq<GroupModel>) -> JsonValue {
    JsonValue::Array(Seq::new(list.len(), |i: int| group_json(list[i])))
}

/// The records that a JSON array holds, or `None` where the value is no
/// array of such records.
pub open spec fn groups_of_json(v: JsonValue) -> Option<Seq<GroupModel>> {
    match v {
        JsonValue::Array(items) => if forall|i: int|
            0 <= i < items.len() ==> group_of_json(#[trigger] items[i]) is Some {
            Some(Seq::new(items.len(), |i: int| group_of_json(items[i])->0))
        } else {
            None
        },
        _ => None,
    }
}

/// The records of the member `key` that a record may lack.
pub open spec fn read_opt_groups(j: JsonValue, key: Seq<char>) -> Option<
    Option<Seq<GroupModel>>,
> {
    match j.present(key) {
        None => Some(None),
        Some(v) => match groups_of_json(v) {
            Some(list) => Some(Some(list)),
            None => None,
        },
    }
}

/// Every record of the list can be written and read again.
pub open spec fn groups_fit(list: Seq<GroupModel>) -> bool {
    forall|i: int| 0 <= i < list.len() ==> group_fits(#[trigger] list[i])
}

/// Writes a group as a JSON object.
pub fn encode_group(g: &GroupExport) -> (j: Json)
    ensures
        j@ == group_json(g@),
{
    let mut object = ObjectBuilder::new();
    object.put("id", Json::Text(g.id.clone()));
    object.put("name", Json::Text(g.name.clone()));
    object.put("members", texts_to_json(&g.members));
    object.build()
}

/// Reads a group from a JSON value.
pub fn decode_group(j: &Json) -> (r: Option<GroupExport>)
    ensures
        r.deep_view() == group_of_json(j@),
{
    let id = match j.get_str("id") {
        Some(v) => v.to_owned(),
        None => {
            return None;
        },
    };
    let name = match j.get_str("name") {
        Some(v) => v.to_owned(),
        None => {
            return None;
        },
    };
    let members = match get_texts(j, "members") {
        Some(v) => v,
        None => {
            return None;
        },
    };
    Some(GroupExport { id, name, members })
}

/// Writes a list of records as a JSON array.
pub fn encode_groups(list: &Vec<GroupExport>) -> (j: Json)
    ensures
        j@ == groups_json(list.deep_view()),
{
    let mut items: Vec<Json> = Vec::new();
    let mut i: usize = 0;
    while i < list.len()
        invariant
            i <= list.len(),
            items.len() == i,
            forall|k: int| 0 <= k < i ==> items@[k]@ == group_json(list@[k]@),
        decreases list.len() - i,
    {
        items.push(encode_group(&list[i]));
        i += 1;
    }
    assert(items.deep_view() =~= Seq::new(
        list.deep_view().len(),
        |i: int| group_json(list.deep_view()[i]),
    ));
    Json::array(items)
}

/// Reads a list of records from a JSON array.
pub fn decode_groups(j: &Json) -> (r: Option<Vec<GroupExport>>)
    ensures
        r.deep_view() == groups_of_json(j@),
{
    let items = match j.as_array() {
        Some(items) => items,
        None => {
            return None;
        },
    };
    let ghost all = items.deep_view();
    let mut out: Vec<GroupExport> = Vec::new();
    let mut i: usize = 0;
    while i < items.len()
        invariant
            i <= items.len(),
            all == items.deep_view(),
            j@ == JsonValue::Array(all),
            out.len() == i,
            forall|k: int|
                0 <= k < i ==> group_of_json(#[trigger] all[k]) == Some(out@[k]@),
        decreases items.len() - i,
    {
        match decode_group(&items[i]) {
            Some(record) => {
                out.push(record);
            },
            None => {
                assert(group_of_json(all[i as int]) is None);
                return None;
            },
        }
        i += 1;
    }
    assert(out.deep_view() =~= Seq::new(
        all.len(),
        |i: int| group_of_json(all[i])->0,
    ));
    Some(out)
}

fn get_opt_groups(j: &Json, key: &str) -> (r: Option<Option<Vec<GroupExport>>>)
    ensures
        r.deep_view() == read_opt_groups(j@, key@),
{
    match j.get_present(key) {
        None => Some(None),
        Some(v) => match decode_groups(v) {
            Some(list) => Some(Some(list)),
            None => None,
        },
    }
}

/// The names of the members of a group differ.
pub proof fn lemma_group_keys()
    ensures
        "id"@ != "name"@,
        "id"@ != "members"@,
        "name"@ != "members"@,
{
    reveal_strlit("id");
    reveal_strlit("name");
    reveal_strlit("members");
    assert("id"@.len() == 2);
    assert("name"@.len() == 4);
    assert("members"@.len() == 7);
}

/// A group that is written is read as it was.
pub proof fn lemma_group_round_trip(g: GroupModel)
    requires
        group_fits(g),
    ensures
        group_of_json(group_json(g)) == Some(g),
{
    lemma_group_keys();
    lemma_texts_round_trip(g.members);
}

/// A list of records that is written is read as it was.
pub proof fn lemma_groups_round_trip(list: Seq<GroupModel>)
    requires
        groups_fit(list),
    ensures
        groups_of_json(groups_json(list)) == Some(list),
{
    let items = Seq::new(list.len(), |i: int| group_json(list[i]));
    assert forall|i: int| 0 <= i < items.len() implies group_of_json(#[trigger] items[i])
        == Some(list[i]) by {
        lemma_group_round_trip(list[i]);
    }
    assert(Seq::new(items.len(), |i: int| group_of_json(items[i])->0) =~= list);
}

/// What a `GroupExport` holds can be written and read again.
pub proof fn lemma_group_view_fits(g: GroupExport)
    ensures
        group_fits(g@),
{
}

/// The members of a file in a document.
pub open spec fn file_members(f: FileModel) -> Map<Seq<char>, JsonValue> {
    let members = no_members().insert("id"@, JsonValue::Text(f.id));
    let members = members.insert("name"@, JsonValue::Text(f.name));
    let members = members.insert("content"@, JsonValue::Text(f.content));
    let members = members.insert("metadata"@, f.metadata);
    members
}

/// A file as a JSON object.
pub open spec fn file_json(f: FileModel) -> JsonValue {
    JsonValue::Object(file_members(f))
}

/// A file that a JSON value holds, or `None` where the value is
/// no such record.
pub open spec fn file_of_json(j: JsonValue) -> Option<FileModel> {
    match (
        j.text_member("id"@),
        j.text_member("name"@),
        j.text_member("content"@),
        j.member("metadata"@),
    ) {
        (
            Some(id),
            Some(name),
            Some(content),
            Some(metadata),
        ) => Some(
            FileModel {
                id,
                name,
                content,
                metadata,
            },
        ),
        _ => None,
    }
}

/// A file can be written and read again, as every one can.
pub open spec fn file_fits(f: FileModel) -> bool {
    true
}

/// A list of records as a JSON array.
pub open spec fn files_json(list: Seq<FileModel>) -> JsonValue {
    JsonValue::Array(Seq::new(list.len(), |i: int| file_json(list[i])))
}

/// The records that a JSON array holds, or `None` where the value is no
/// array of such records.
pub open spec fn files_of_json(v: JsonValue) -> Option<Seq<FileModel>> {
    match v {
        JsonValue::Array(items) => if forall|i: int|
            0 <= i < items.len() ==> file_of_json(#[trigger] items[i]) is Some {
            Some(Seq::new(items.len(), |i: int| file_of_json(items[i])->0))
        } else {
            None
        },
        _ => None,
    }
}

/// The records of the member `key` that a record may lack.
pub open spec fn read_opt_files(j: JsonValue, key: Seq<char>) -> Option<
    Option<Seq<FileModel>>,
> {
    match j.present(key) {
        None => Some(None),
        Some(v) => match files_of_json(v) {
            Some(list) => Some(Some(list)),
            None => None,
        },
    }
}

/// Every record of the list can be written and read again.
pub open spec fn files_fit(list: Seq<FileModel>) -> bool {
    forall|i: int| 0 <= i < list.len() ==> file_fits(#[trigger] list[i])
}

/// Writes a file as a JSON object.
pub fn encode_file(f: &FileExport) -> (j: Json)
    ensures
        j@ == file_json(f@),
{
    let mut object = ObjectBuilder::new();
    object.put("id", Json::Text(f.id.clone()));
    object.put("name", Json::Text(f.name.clone()));
    object.put("content", Json::Text(f.content.clone()));
    object.put("metadata", f.metadata.clone());
    object.build()
}

/// Reads a file from a JSON value.
pub fn decode_file(j: &Json) -> (r: Option<FileExport>)
    ensures
        r.deep_view() == file_of_json(j@),
{
    let id = match j.get_str("id") {
        Some(v) => v.to_owned(),
        None => {
            return None;
        },
    };
    let name = match j.get_str("name") {
        Some(v) => v.to_owned(),
        None => {
            return None;
        },
    };
    let content = match j.get_str("content") {
        Some(v) => v.to_owned(),
        None => {
            return None;
        },
    };
    let metadata = match j.get("metadata") {
        Some(v) => v.clone(),
        None => {
            return None;
        },
    };
    Some(FileExport { id, name, content, metadata })
}

/// Writes a list of records as a JSON array.
pub fn encode_files(list: &Vec<FileExport>) -> (j: Json)
    ensures
        j@ == files_json(list.deep_view()),
{
    let mut items: Vec<Json> = Vec::new();
    let mut i: usize = 0;
    while i < list.len()
        invariant
            i <= list.len(),
            items.len() == i,
            forall|k: int| 0 <= k < i ==> items@[k]@ == file_json(list@[k]@),
        decreases list.len() - i,
    {
        items.push(encode_file(&list[i]));
        i += 1;
    }
    assert(items.deep_view() =~= Seq::new(
        list.deep_view().len(),
        |i: int| file_json(list.deep_view()[i]),
    ));
    Json::array(items)
}

/// Reads a list of records from a JSON array.
pub fn decode_files(j: &Json) -> (r: Option<Vec<FileExport>>)
    ensures
        r.deep_view() == files_of_json(j@),
{
    let items = match j.as_array() {
        Some(items) => items,
        None => {
            return None;
        },
    };
    let ghost all = items.deep_view();
    let mut out: Vec<FileExport> = Vec::new();
    let mut i: usize = 0;
    while i < items.len()
        invariant
            i <= items.len(),
            all == items.deep_view(),
            j@ == JsonValue::Array(all),
            out.len() == i,
            forall|k: int|
                0 <= k < i ==> file_of_json(#[trigger] all[k]) == Some(out@[k]@),
        decreases items.len() - i,
    {
        match decode_file(&items[i]) {
            Some(record) => {
                out.push(record);
            },
            None => {
                assert(file_of_json(all[i as int]) is None);
                return None;
            },
        }
        i += 1;
    }
    assert(out.deep_view() =~= Seq::new(
        all.len(),
        |i: int| file_of_json(all[i])->0,
    ));
    Some(out)
}

fn get_opt_files(j: &Json, key: &str) -> (r: Option<Option<Vec<FileExport>>>)
    ensures
        r.deep_view() == read_opt_files(j@, key@),
{
    match j.get_present(key) {
        None => Some(None),
        Some(v) => match decode_files(v) {
            Some(list) => Some(Some(list)),
            None => None,
        },
    }
}

/// The names of the members of a file differ.
pub proof fn lemma_file_keys()
    ensures
        "id"@ != "name"@,
        "id"@ != "content"@,
        "id"@ != "metadata"@,
        "name"@ != "content"@,
        "name"@ != "metadata"@,
        "content"@ != "metadata"@,
{
    reveal_strlit("id");
    reveal_strlit("name");
    reveal_strlit("content");
    reveal_strlit("metadata");
    assert("id"@.len() == 2);
    assert("name"@.len() == 4);
    assert("content"@.len() == 7);
    assert("metadata"@.len() == 8);
}

/// A file that is written is read as it was.
pub proof fn lemma_file_round_trip(f: FileModel)
    requires
        file_fits(f),
    ensures
        file_of_json(file_json(f)) == Some(f),
{
    lemma_file_keys();
}

/// A list of records that is written is read as it was.
pub proof fn lemma_files_round_trip(list: Seq<FileModel>)
    requires
        files_fit(list),
    ensures
        files_of_json(files_json(list)) == Some(list),
{
    let items = Seq::new(list.len(), |i: int| file_json(list[i]));
    assert forall|i: int| 0 <= i < items.len() implies file_of_json(#[trigger] items[i])
        == Some(list[i]) by {
        lemma_file_round_trip(list[i]);
    }
    assert(Seq::new(items.len(), |i: int| file_of_json(items[i])->0) =~= list);
}

/// What a `FileExport` holds can be written and read again.
pub proof fn lemma_file_view_fits(f: FileExport)
    ensures
        file_fits(f@),
{
}

/// The members of a source in a document.
pub open spec fn source_members(s: SourceModel) -> Map<Seq<char>, JsonValue> {
    let members = no_members().insert("id"@, JsonValue::Text(s.id));
    let members = members.insert("name"@, JsonValue::Text(s.name));
    let members = members.insert("source_type"@, JsonValue::Text(s.source_type));
    let members = members.insert("metadata"@, s.metadata);
    members
}

/// A source as a JSON object.
pub open spec fn source_json(s: SourceModel) -> JsonValue {
    JsonValue::Object(source_members(s))
}

/// A source that a JSON value holds, or `None` where the value is
/// no such record.
pub open spec fn source_of_json(j: JsonValue) -> Option<SourceModel> {
    match (
        j.text_member("id"@),
        j.text_member("name"@),
        j.text_member("source_type"@),
        j.member("metadata"@),
    ) {
        (
            Some(id),
            Some(name),
            Some(source_type),
            Some(metadata),
        ) => Some(
            SourceModel {
                id,
                name,
                source_type,
                metadata,
            },
        ),
        _ => None,
    }
}

/// A source can be written and read again, as every one can.
pub open spec fn source_fits(s: SourceModel) -> bool {
    true
}

/// A list of records as a JSON array.
pub open spec fn sources_json(list: Seq<SourceModel>) -> JsonValue {
    JsonValue::Array(Seq::new(list.len(), |i: int| source_json(list[i])))
}

/// The records that a JSON array holds, or `None` where the value is no
/// array of such records.
pub open spec fn sources_of_json(v: JsonValue) -> Option<Seq<SourceModel>> {
    match v {
        JsonValue::Array(items) => if forall|i: int|
            0 <= i < items.len() ==> source_of_json(#[trigger] items[i]) is Some {
            Some(Seq::new(items.len(), |i: int| source_of_json(items[i])->0))
        } else {
            None
        },
        _ => None,
    }
}

/// The records of the member `key` that a record may lack.
pub open spec fn read_opt_sources(j: JsonValue, key: Seq<char>) -> Option<
    Option<Seq<SourceModel>>,
> {
    match j.present(key) {
        None => Some(None),
        Some(v) => match sources_of_json(v) {
            Some(list) => Some(Some(list)),
            None => None,
        },
    }
}

/// Every record of the list can be written and read again.
pub open spec fn sources_fit(list: Seq<SourceModel>) -> bool {
    forall|i: int| 0 <= i < list.len() ==> source_fits(#[trigger] list[i])
}

/// Writes a source as a JSON object.
pub fn encode_source(s: &SourceExport) -> (j: Json)
    ensures
        j@ == source_json(s@),
{
    let mut object = ObjectBuilder::new();
    object.put("id", Json::Text(s.id.clone()));
    object.put("name", Json::Text(s.name.clone()));
    object.put("source_type", Json::Text(s.source_type.clone()));
    object.put("metadata", s.metadata.clone());
    object.build()
}

/// Reads a source from a JSON value.
pub fn decode_source(j: &Json) -> (r: Option<SourceExport>)
    ensures
        r.deep_view() == source_of_json(j@),
{
    let id = match j.get_str("id") {
        Some(v) => v.to_owned(),
        None => {
            return None;
        },
    };
    let name = match j.get_str("name") {
        Some(v) => v.to_owned(),
        None => {
            return None;
        },
    };
    let source_type = match j.get_str("source_type") {
        Some(v) => v.to_owned(),
        None => {
            return None;
        },
    };
    let metadata = match j.get("metadata") {
        Some(v) => v.clone(),
        None => {
            return None;
        },
    };
    Some(SourceExport { id, name, source_type, metadata })
}

/// Writes a list of records as a JSON array.
pub fn encode_sources(list: &Vec<SourceExport>) -> (j: Json)
    ensures
        j@ == sources_json(list.deep_view()),
{
    let mut items: Vec<Json> = Vec::new();
    let mut i: usize = 0;
    while i < list.len()
        invariant
            i <= list.len(),
            items.len() == i,
            forall|k: int| 0 <= k < i ==> items@[k]@ == source_json(list@[k]@),
        decreases list.len() - i,
    {
        items.push(encode_source(&list[i]));
        i += 1;
    }
    assert(items.deep_view() =~= Seq::new(
        list.deep_view().len(),
        |i: int| source_json(list.deep_view()[i]),
    ));
    Json::array(items)
}

/// Reads a list of records from a JSON array.
pub fn decode_sources(j: &Json) -> (r: Option<Vec<SourceExport>>)
    ensures
        r.deep_view() == sources_of_json(j@),
{
    let items = match j.as_array() {
        Some(items) => items,
        None => {
            return None;
        },
    };
    let ghost all = items.deep_view();
    let mut out: Vec<SourceExport> = Vec::new();
    let mut i: usize = 0;
    while i < items.len()
        invariant
            i <= items.len(),
            all == items.deep_view(),
            j@ == JsonValue::Array(all),
            out.len() == i,
            forall|k: int|
                0 <= k < i ==> source_of_json(#[trigger] all[k]) == Some(out@[k]@),
        decreases items.len() - i,
    {
        match decode_source(&items[i]) {
            Some(record) => {
                out.push(record);
            },
            None => {
                assert(source_of_json(all[i as int]) is None);
                return None;
            },
        }
        i += 1;
    }
    assert(out.deep_view() =~= Seq::new(
        all.len(),
        |i: int| source_of_json(all[i])->0,
    ));
    Some(out)
}

fn get_opt_sources(j: &Json, key: &str) -> (r: Option<Option<Vec<SourceExport>>>)
    ensures
        r.deep_view() == read_opt_sources(j@, key@),
{
    match j.get_present(key) {
        None => Some(None),
        Some(v) => match decode_sources(v) {
            Some(list) => Some(Some(list)),
            None => None,
        },
    }
}

/// The names of the members of a source differ.
pub proof fn lemma_source_keys()
    ensures
        "id"@ != "name"@,
        "id"@ != "source_type"@,
        "id"@ != "metadata"@,
        "name"@ != "source_type"@,
        "name"@ != "metadata"@,
        "source_type"@ != "metadata"@,
{
    reveal_strlit("id");
    reveal_strlit("name");
    reveal_strlit("source_type");
    reveal_strlit("metadata");
    assert("id"@.len() == 2);
    assert("name"@.len() == 4);
    assert("source_type"@.len() == 11);
    assert("metadata"@.len() == 8);
}

/// A source that is written is read as it was.
pub proof fn lemma_source_round_trip(s: SourceModel)
    requires
        source_fits(s),
    ensures
        source_of_json(source_json(s)) == Some(s),
{
    lemma_source_keys();
}

/// A list of records that is written is read as it was.
pub proof fn lemma_sources_round_trip(list: Seq<SourceModel>)
    requires
        sources_fit(list),
    ensures
        sources_of_json(sources_json(list)) == Some(list),
{
    let items = Seq::new(list.len(), |i: int| source_json(list[i]));
    assert forall|i: int| 0 <= i < items.len() implies source_of_json(#[trigger] items[i])
        == Some(list[i]) by {
        lemma_source_round_trip(list[i]);
    }
    assert(Seq::new(items.len(), |i: int| source_of_json(items[i])->0) =~= list);
}

/// What a `SourceExport` holds can be written and read again.
pub proof fn lemma_source_view_fits(s: SourceExport)
    ensures
        source_fits(s@),
{
}

/// The members of a tool in a document.
pub open spec fn tool_members(t: ExportedTool) -> Map<Seq<char>, JsonValue> {
    let members = no_members().insert("id"@, JsonValue::Text(t.id));
    let members = members.insert("name"@, JsonValue::Text(t.name));
    let members = members.insert("schema"@, schema_json(t.schema));
    let members = members.insert("source_code"@, text_or_null(t.source_code));
    let members = members.insert("source_type"@, JsonValue::Text(t.source_type));
    members
}

/// A tool as a JSON object.
pub open spec fn tool_json(t: ExportedTool) -> JsonValue {
    JsonValue::Object(tool_members(t))
}

/// A tool that a JSON value holds, or `None` where the value is
/// no such record.
pub open spec fn tool_of_json(j: JsonValue) -> Option<ExportedTool> {
    match (
        j.text_member("id"@),
        j.text_member("name"@),
        read_schema(j, "schema"@),
        read_opt_text(j, "source_code"@),
        j.text_member("source_type"@),
    ) {
        (
            Some(id),
            Some(name),
            Some(schema),
            Some(source_code),
            Some(source_type),
        ) => Some(
            ExportedTool {
                id,
                name,
                schema,
                source_code,
                source_type,
            },
        ),
        _ => None,
    }
}

/// A tool can be written and read again: the records in it can be written
/// and read again.
pub open spec fn tool_fits(t: ExportedTool) -> bool {
    &&& schema_fits(t.schema)
}

/// A list of records as a JSON array.
pub open spec fn tools_json(list: Seq<ExportedTool>) -> JsonValue {
    JsonValue::Array(Seq::new(list.len(), |i: int| tool_json(list[i])))
}

/// The records that a JSON array holds, or `None` where the value is no
/// array of such records.
pub open spec fn tools_of_json(v: JsonValue) -> Option<Seq<ExportedTool>> {
    match v {
        JsonValue::Array(items) => if forall|i: int|
            0 <= i < items.len() ==> tool_of_json(#[trigger] items[i]) is Some {
            Some(Seq::new(items.len(), |i: int| tool_of_json(items[i])->0))
        } else {
            None
        },
        _ => None,
    }
}

/// The records of the member `key` that a record may lack.
pub open spec fn read_opt_tools(j: JsonValue, key: Seq<char>) -> Option<
    Option<Seq<ExportedTool>>,
> {
    match j.present(key) {
        None => Some(None),
        Some(v) => match tools_of_json(v) {
            Some(list) => Some(Some(list)),
            None => None,
        },
    }
}

/// Every record of the list can be written and read again.
pub open spec fn tools_fit(list: Seq<ExportedTool>) -> bool {
    forall|i: int| 0 <= i < list.len() ==> tool_fits(#[trigger] list[i])
}

/// Writes a tool as a JSON object.
pub fn encode_tool(t: &ToolExport) -> (j: Json)
    ensures
        j@ == tool_json(t@),
{
    let mut object = ObjectBuilder::new();
    object.put("id", Json::Text(t.id.clone()));
    object.put("name", Json::Text(t.name.clone()));
    object.put("schema", encode_schema(&t.schema));
    object.put("source_code", encode_opt_text(&t.source_code));
    object.put("source_type", Json::Text(t.source_type.clone()));
    object.build()
}

/// Reads a tool from a JSON value.
pub fn decode_tool(j: &Json) -> (r: Option<ToolExport>)
    ensures
        r.deep_view() == tool_of_json(j@),
{
    let id = match j.get_str("id") {
        Some(v) => v.to_owned(),
        None => {
            return None;
        },
    };
    let name = match j.get_str("name") {
        Some(v) => v.to_owned(),
        None => {
            return None;
        },
    };
    let schema = match get_schema(j, "schema") {
        Some(v) => v,
        None => {
            return None;
        },
    };
    let source_code = match get_opt_text(j, "source_code") {
        Some(v) => v,
        None => {
            return None;
        },
    };
    let source_type = match j.get_str("source_type") {
        Some(v) => v.to_owned(),
        None => {
            return None;
        },
    };
    Some(ToolExport { id, name, schema, source_code, source_type })
}

/// Writes a list of records as a JSON array.
pub fn encode_tools(list: &Vec<ToolExport>) -> (j: Json)
    ensures
        j@ == tools_json(list.deep_view()),
{
    let mut items: Vec<Json> = Vec::new();
    let mut i: usize = 0;
    while i < list.len()
        invariant
            i <= list.len(),
            items.len() == i,
            forall|k: int| 0 <= k < i ==> items@[k]@ == tool_json(list@[k]@),
        decreases list.len() - i,
    {
        items.push(encode_tool(&list[i]));
        i += 1;
    }
    assert(items.deep_view() =~= Seq::new(
        list.deep_view().len(),
        |i: int| tool_json(list.deep_view()[i]),
    ));
    Json::array(items)
}

/// Reads a list of records from a JSON array.
pub fn decode_tools(j: &Json) -> (r: Option<Vec<ToolExport>>)
    ensures
        r.deep_view() == tools_of_json(j@),
{
    let items = match j.as_array() {
        Some(items) => items,
        None => {
            return None;
        },
    };
    let ghost all = items.deep_view();
    let mut out: Vec<ToolExport> = Vec::new();
    let mut i: usize = 0;
    while i < items.len()
        invariant
            i <= items.len(),
            all == items.deep_view(),
            j@ == JsonValue::Array(all),
            out.len() == i,
            forall|k: int|
                0 <= k < i ==> tool_of_json(#[trigger] all[k]) == Some(out@[k]@),
        decreases items.len() - i,
    {
        match decode_tool(&items[i]) {
            Some(record) => {
                out.push(record);
            },
            None => {
                assert(tool_of_json(all[i as int]) is None);
                return None;
            },
        }
        i += 1;
    }
    assert(out.deep_view() =~= Seq::new(
        all.len(),
        |i: int| tool_of_json(all[i])->0,
    ));
    Some(out)
}

fn get_opt_tools(j: &Json, key: &str) -> (r: Option<Option<Vec<ToolExport>>>)
    ensures
        r.deep_view() == read_opt_tools(j@, key@),
{
    match j.get_present(key) {
        None => Some(None),
        Some(v) => match decode_tools(v) {
            Some(list) => Some(Some(list)),
            None => None,
        },
    }
}

/// The names of the members of a tool differ.
pub proof fn lemma_tool_keys()
    ensures
        "id"@ != "name"@,
        "id"@ != "schema"@,
        "id"@ != "source_code"@,
        "id"@ != "source_type"@,
        "name"@ != "schema"@,
        "name"@ != "source_code"@,
        "name"@ != "source_type"@,
        "schema"@ != "source_code"@,
        "schema"@ != "source_type"@,
        "source_code"@ != "source_type"@,
{
    reveal_strlit("id");
    reveal_strlit("name");
    reveal_strlit("schema");
    reveal_strlit("source_code");
    reveal_strlit("source_type");
    assert("id"@.len() == 2);
    assert("name"@.len() == 4);
    assert("schema"@.len() == 6);
    assert("source_code"@.len() == 11);
    assert("source_type"@.len() == 11);
    assert("source_code"@[7] != "source_type"@[7]);
}

/// A tool that is written is read as it was.
pub proof fn lemma_tool_round_trip(t: ExportedTool)
    requires
        tool_fits(t),
    ensures
        tool_of_json(tool_json(t)) == Some(t),
{
    lemma_tool_keys();
    lemma_schema_round_trip(t.schema);
}

/// A list of records that is written is read as it was.
pub proof fn lemma_tools_round_trip(list: Seq<ExportedTool>)
    requires
        tools_fit(list),
    ensures
        tools_of_json(tools_json(list)) == Some(list),
{
    let items = Seq::new(list.len(), |i: int| tool_json(list[i]));
    assert forall|i: int| 0 <= i < items.len() implies tool_of_json(#[trigger] items[i])
        == Some(list[i]) by {
        lemma_tool_round_trip(list[i]);
    }
    assert(Seq::new(items.len(), |i: int| tool_of_json(items[i])->0) =~= list);
}

/// What a `ToolExport` holds can be written and read again.
pub proof fn lemma_tool_view_fits(t: ToolExport)
    ensures
        tool_fits(t@),
{
    lemma_schema_view_fits(t.schema);
}

/// The members of a server in a document.
pub open spec fn mcp_server_members(s: McpServerModel) -> Map<Seq<char>, JsonValue> {
    let members = no_members().insert("id"@, JsonValue::Text(s.id));
    let members = members.insert("name"@, JsonValue::Text(s.name));
    let members = members.insert("config"@, s.config);
    members
}

/// A server as a JSON object.
pub open spec fn mcp_server_json(s: McpServerModel) -> JsonValue {
    JsonValue::Object(mcp_server_members(s))
}

/// A server that a JSON value holds, or `None` where the value is
/// no such record.
pub open spec fn mcp_server_of_json(j: JsonValue) -> Option<McpServerModel> {
    match (
        j.text_member("id"@),
        j.text_member("name"@),
        j.member("config"@),
    ) {
        (
            Some(id),
            Some(name),
            Some(config),
        ) => Some(
            McpServerModel {
                id,
                name,
                config,
            },
        ),
        _ => None,
    }
}

/// A server can be written and read again, as every one can.
pub open spec fn mcp_server_fits(s: McpServerModel) -> bool {
    true
}

/// A list of records as a JSON array.
pub open spec fn mcp_servers_json(list: Seq<McpServerModel>) -> JsonValue {
    JsonValue::Array(Seq::new(list.len(), |i: int| mcp_server_json(list[i])))
}

/// The records that a JSON array holds, or `None` where the value is no
/// array of such records.
pub open spec fn mcp_servers_of_json(v: JsonValue) -> Option<Seq<McpServerModel>> {
    match v {
        JsonValue::Array(items) => if forall|i: int|
            0 <= i < items.len() ==> mcp_server_of_json(#[trigger] items[i]) is Some {
            Some(Seq::new(items.len(), |i: int| mcp_server_of_json(items[i])->0))
        } else {
            None
        },
        _ => None,
    }
}

/// The records of the member `key` that a record may lack.
pub open spec fn read_opt_mcp_servers(j: JsonValue, key: Seq<char>) -> Option<
    Option<Seq<McpServerModel>>,
> {
    match j.present(key) {
        None => Some(None),
        Some(v) => match mcp_servers_of_json(v) {
            Some(list) => Some(Some(list)),
            None => None,
        },
    }
}

/// Every record of the list can be written and read again.
pub open spec fn mcp_servers_fit(list: Seq<McpServerModel>) -> bool {
    forall|i: int| 0 <= i < list.len() ==> mcp_server_fits(#[trigger] list[i])
}

/// Writes a server as a JSON object.
pub fn encode_mcp_server(s: &McpServerExport) -> (j: Json)
    ensures
        j@ == mcp_server_json(s@),
{
    let mut object = ObjectBuilder::new();
    object.put("id", Json::Text(s.id.clone()));
    object.put("name", Json::Text(s.name.clone()));
    object.put("config", s.config.clone());
    object.build()
}

/// Reads a server from a JSON value.
pub fn decode_mcp_server(j: &Json) -> (r: Option<McpServerExport>)
    ensures
        r.deep_view() == mcp_server_of_json(j@),
{
    let id = match j.get_str("id") {
        Some(v) => v.to_owned(),
        None => {
            return None;
        },
    };
    let name = match j.get_str("name") {
        Some(v) => v.to_owned(),
        None => {
            return None;
        },
    };
    let config = match j.get("config") {
        Some(v) => v.clone(),
        None => {
            return None;
        },
    };
    Some(McpServerExport { id, name, config })
}

/// Writes a list of records as a JSON array.
pub fn encode_mcp_servers(list: &Vec<McpServerExport>) -> (j: Json)
    ensures
        j@ == mcp_servers_json(list.deep_view()),
{
    let mut items: Vec<Json> = Vec::new();
    let mut i: usize = 0;
    while i < list.len()
        invariant
            i <= list.len(),
            items.len() == i,
            forall|k: int| 0 <= k < i ==> items@[k]@ == mcp_server_json(list@[k]@),
        decreases list.len() - i,
    {
        items.push(encode_mcp_server(&list[i]));
        i += 1;
    }
    assert(items.deep_view() =~= Seq::new(
        list.deep_view().len(),
        |i: int| mcp_server_json(list.deep_view()[i]),
    ));
    Json::array(items)
}

/// Reads a list of records from a JSON array.
pub fn decode_mcp_servers(j: &Json) -> (r: Option<Vec<McpServerExport>>)
    ensures
        r.deep_view() == mcp_servers_of_json(j@),
{
    let items = match j.as_array() {
        Some(items) => items,
        None => {
            return None;
        },
    };
    let ghost all = items.deep_view();
    let mut out: Vec<McpServerExport> = Vec::new();
    let mut i: usize = 0;
    while i < items.len()
        invariant
            i <= items.len(),
            all == items.deep_view(),
            j@ == JsonValue::Array(all),
            out.len() == i,
            forall|k: int|
                0 <= k < i ==> mcp_server_of_json(#[trigger] all[k]) == Some(out@[k]@),
        decreases items.len() - i,
    {
        match decode_mcp_server(&items[i]) {
            Some(record) => {
                out.push(record);
            },
            None => {
                assert(mcp_server_of_json(all[i as int]) is None);
                return None;
            },
        }
        i += 1;
    }
    assert(out.deep_view() =~= Seq::new(
        all.len(),
        |i: int| mcp_server_of_json(all[i])->0,
    ));
    Some(out)
}

fn get_opt_mcp_servers(j: &Json, key: &str) -> (r: Option<Option<Vec<McpServerExport>>>)
    ensures
        r.deep_view() == read_opt_mcp_servers(j@, key@),
{
    match j.get_present(key) {
        None => Some(None),
        Some(v) => match decode_mcp_servers(v) {
            Some(list) => Some(Some(list)),
            None => None,
        },
    }
}

/// The names of the members of a server differ.
pub proof fn lemma_mcp_server_keys()
    ensures
        "id"@ != "name"@,
        "id"@ != "config"@,
        "name"@ != "config"@,
{
    reveal_strlit("id");
    reveal_strlit("name");
    reveal_strlit("config");
    assert("id"@.len() == 2);
    assert("name"@.len() == 4);
    assert("config"@.len() == 6);
}

/// A server that is written is read as it was.
pub proof fn lemma_mcp_server_round_trip(s: McpServerModel)
    requires
        mcp_server_fits(s),
    ensures
        mcp_server_of_json(mcp_server_json(s)) == Some(s),
{
    lemma_mcp_server_keys();
}

/// A list of records that is written is read as it was.
pub proof fn lemma_mcp_servers_round_trip(list: Seq<McpServerModel>)
    requires
        mcp_servers_fit(list),
    ensures
        mcp_servers_of_json(mcp_servers_json(list)) == Some(list),
{
    let items = Seq::new(list.len(), |i: int| mcp_server_json(list[i]));
    assert forall|i: int| 0 <= i < items.len() implies mcp_server_of_json(#[trigger] items[i])
        == Some(list[i]) by {
        lemma_mcp_server_round_trip(list[i]);
    }
    assert(Seq::new(items.len(), |i: int| mcp_server_of_json(items[i])->0) =~= list);
}

/// What a `McpServerExport` holds can be written and read again.
pub proof fn lemma_mcp_server_view_fits(s: McpServerExport)
    ensures
        mcp_server_fits(s@),
{
}

/// The members of a tool rule in a document.
pub open spec fn tool_rule_members(rule: ToolRuleModel) -> Map<Seq<char>, JsonValue> {
    let members = no_members().insert("tool_name"@, JsonValue::Text(rule.tool_name));
    let members = members.insert("children"@, texts_json(rule.children));
    members
}

/// A tool rule as a JSON object.
pub open spec fn tool_rule_json(rule: ToolRuleModel) -> JsonValue {
    JsonValue::Object(tool_rule_members(rule))
}

/// A tool rule that a JSON value holds, or `None` where the value is
/// no such record.
pub open spec fn tool_rule_of_json(j: JsonValue) -> Option<ToolRuleModel> {
    match (
        j.text_member("tool_name"@),
        read_texts(j, "children"@),
    ) {
        (
            Some(tool_name),
            Some(children),
        ) => Some(
            ToolRuleModel {
                tool_name,
                children,
            },
        ),
        _ => None,
    }
}

/// A tool rule can be written and read again, as every one can.
pub open spec fn tool_rule_fits(rule: ToolRuleModel) -> bool {
    true
}

/// A list of records as a JSON array.
pub open spec fn tool_rules_json(list: Seq<ToolRuleModel>) -> JsonValue {
    JsonValue::Array(Seq::new(list.len(), |i: int| tool_rule_json(list[i])))
}

/// The records that a JSON array holds, or `None` where the value is no
/// array of such records.
pub open spec fn tool_rules_of_json(v: JsonValue) -> Option<Seq<ToolRuleModel>> {
    match v {
        JsonValue::Array(items) => if forall|i: int|
            0 <= i < items.len() ==> tool_rule_of_json(#[trigger] items[i]) is Some {
            Some(Seq::new(items.len(), |i: int| tool_rule_of_json(items[i])->0))
        } else {
            None
        },
        _ => None,
    }
}

/// The records of the member `key` that a record may lack.
pub open spec fn read_opt_tool_rules(j: JsonValue, key: Seq<char>) -> Option<
    Option<Seq<ToolRuleModel>>,
> {
    match j.present(key) {
        None => Some(None),
        Some(v) => match tool_rules_of_json(v) {
            Some(list) => Some(Some(list)),
            None => None,
        },
    }
}

/// Every record of the list can be written and read again.
pub open spec fn tool_rules_fit(list: Seq<ToolRuleModel>) -> bool {
    forall|i: int| 0 <= i < list.len() ==> tool_rule_fits(#[trigger] list[i])
}

/// Writes a tool rule as a JSON object.
pub fn encode_tool_rule(rule: &ToolRule) -> (j: Json)
    ensures
        j@ == tool_rule_json(rule@),
{
    let mut object = ObjectBuilder::new();
    object.put("tool_name", Json::Text(rule.tool_name.clone()));
    object.put("children", texts_to_json(&rule.children));
    object.build()
}

/// Reads a tool rule from a JSON value.
pub fn decode_tool_rule(j: &Json) -> (r: Option<ToolRule>)
    ensures
        r.deep_view() == tool_rule_of_json(j@),
{
    let tool_name = match j.get_str("tool_name") {
        Some(v) => v.to_owned(),
        None => {
            return None;
        },
    };
    let children = match get_texts(j, "children") {
        Some(v) => v,
        None => {
            return None;
        },
    };
    Some(ToolRule { tool_name, children })
}

/// Writes a list of records as a JSON array.
pub fn encode_tool_rules(list: &Vec<ToolRule>) -> (j: Json)
    ensures
        j@ == tool_rules_json(list.deep_view()),
{
    let mut items: Vec<Json> = Vec::new();
    let mut i: usize = 0;
    while i < list.len()
        invariant
            i <= list.len(),
            items.len() == i,
            forall|k: int| 0 <= k < i ==> items@[k]@ == tool_rule_json(list@[k]@),
        decreases list.len() - i,
    {
        items.push(encode_tool_rule(&list[i]));
        i += 1;
    }
    assert(items.deep_view() =~= Seq::new(
        list.deep_view().len(),
        |i: int| tool_rule_json(list.deep_view()[i]),
    ));
    Json::array(items)
}

/// Reads a list of records from a JSON array.
pub fn decode_tool_rules(j: &Json) -> (r: Option<Vec<ToolRule>>)
    ensures
        r.deep_view() == tool_rules_of_json(j@),
{
    let items = match j.as_array() {
        Some(items) => items,
        None => {
            return None;
        },
    };
    let ghost all = items.deep_view();
    let mut out: Vec<ToolRule> = Vec::new();
    let mut i: usize = 0;
    while i < items.len()
        invariant
            i <= items.len(),
            all == items.deep_view(),
            j@ == JsonValue::Array(all),
            out.len() == i,
            forall|k: int|
                0 <= k < i ==> tool_rule_of_json(#[trigger] all[k]) == Some(out@[k]@),
        decreases items.len() - i,
    {
        match decode_tool_rule(&items[i]) {
            Some(record) => {
                out.push(record);
            },
            None => {
                assert(tool_rule_of_json(all[i as int]) is None);
                return None;
            },
        }
        i += 1;
    }
    assert(out.deep_view() =~= Seq::new(
        all.len(),
        |i: int| tool_rule_of_json(all[i])->0,
    ));
    Some(out)
}

fn get_opt_tool_rules(j: &Json, key: &str) -> (r: Option<Option<Vec<ToolRule>>>)
    ensures
        r.deep_view() == read_opt_tool_rules(j@, key@),
{
    match j.get_present(key) {
        None => Some(None),
        Some(v) => match decode_tool_rules(v) {
            Some(list) => Some(Some(list)),
            None => None,
        },
    }
}

/// The names of the members of a tool rule differ.
pub proof fn lemma_tool_rule_keys()
    ensures
        "tool_name"@ != "children"@,
{
    reveal_strlit("tool_name");
    reveal_strlit("children");
    assert("tool_name"@.len() == 9);
    assert("children"@.len() == 8);
}

/// A tool rule that is written is read as it was.
pub proof fn lemma_tool_rule_round_trip(rule: ToolRuleModel)
    requires
        tool_rule_fits(rule),
    ensures
        tool_rule_of_json(tool_rule_json(rule)) == Some(rule),
{
    lemma_tool_rule_keys();
    lemma_texts_round_trip(rule.children);
}

/// A list of records that is written is read as it was.
pub proof fn lemma_tool_rules_round_trip(list: Seq<ToolRuleModel>)
    requires
        tool_rules_fit(list),
    ensures
        tool_rules_of_json(tool_rules_json(list)) == Some(list),
{
    let items = Seq::new(list.len(), |i: int| tool_rule_json(list[i]));
    assert forall|i: int| 0 <= i < items.len() implies tool_rule_of_json(#[trigger] items[i])
        == Some(list[i]) by {
        lemma_tool_rule_round_trip(list[i]);
    }
    assert(Seq::new(items.len(), |i: int| tool_rule_of_json(items[i])->0) =~= list);
}

/// What a `ToolRule` holds can be written and read again.
pub proof fn lemma_tool_rule_view_fits(rule: ToolRule)
    ensures
        tool_rule_fits(rule@),
{
}

/// The members of the model of an agent in a document.
pub open spec fn model_config_members(c: ModelConfigModel) -> Map<Seq<char>, JsonValue> {
    let members = no_members().insert("model_endpoint"@, JsonValue::Text(c.model_endpoint));
    let members = members.insert("context_window"@, JsonValue::Number(c.context_window as int));
    let members = match c.temperature {
        Some(v) => members.insert("temperature"@, JsonValue::Real(thousandths_text(v as nat))),
        None => members,
    };
    let members = match c.max_tokens {
        Some(v) => members.insert("max_tokens"@, JsonValue::Number(v as int)),
        None => members,
    };
    members
}

/// The model of an agent as a JSON object.
pub open spec fn model_config_json(c: ModelConfigModel) -> JsonValue {
    JsonValue::Object(model_config_members(c))
}

/// The model of an agent that a JSON value holds, or `None` where the value is
/// no such record.
pub open spec fn model_config_of_json(j: JsonValue) -> Option<ModelConfigModel> {
    match (
        j.text_member("model_endpoint"@),
        j.size_member("context_window"@),
        read_opt_thousandths(j, "temperature"@),
        read_opt_size(j, "max_tokens"@),
    ) {
        (
            Some(model_endpoint),
            Some(context_window),
            Some(temperature),
            Some(max_tokens),
        ) => Some(
            ModelConfigModel {
                model_endpoint,
                context_window: context_window as nat,
                temperature,
                max_tokens,
            },
        ),
        _ => None,
    }
}

/// The model of an agent that the member `key` holds.
pub open spec fn read_model_config(j: JsonValue, key: Seq<char>) -> Option<ModelConfigModel> {
    match j.member(key) {
        Some(v) => model_config_of_json(v),
        None => None,
    }
}

/// The model of an agent can be written and read again: its sizes fit
/// `usize`.
pub open spec fn model_config_fits(c: ModelConfigModel) -> bool {
    &&& c.context_window <= usize::MAX
}

/// Writes the model of an agent as a JSON object.
pub fn encode_model_config(c: &ModelConfig) -> (j: Json)
    ensures
        j@ == model_config_json(c@),
{
    let mut object = ObjectBuilder::new();
    object.put("model_endpoint", Json::Text(c.model_endpoint.clone()));
    object.put("context_window", Json::UInt(c.context_window as u64));
    match &c.temperature {
        Some(v) => {
            object.put("temperature", Json::Real(format_thousandths(*v)));
        },
        None => {},
    }
    match &c.max_tokens {
        Some(v) => {
            object.put("max_tokens", Json::UInt(*v as u64));
        },
        None => {},
    }
    object.build()
}

/// Reads the model of an agent from a JSON value.
pub fn decode_model_config(j: &Json) -> (r: Option<ModelConfig>)
    ensures
        r.deep_view() == model_config_of_json(j@),
{
    let model_endpoint = match j.get_str("model_endpoint") {
        Some(v) => v.to_owned(),
        None => {
            return None;
        },
    };
    let context_window = match j.get_usize("context_window") {
        Some(v) => v,
        None => {
            return None;
        },
    };
    let temperature = match get_opt_thousandths(j, "temperature") {
        Some(v) => v,
        None => {
            return None;
        },
    };
    let max_tokens = match get_opt_size(j, "max_tokens") {
        Some(v) => v,
        None => {
            return None;
        },
    };
    Some(ModelConfig { model_endpoint, context_window, temperature, max_tokens })
}

fn get_model_config(j: &Json, key: &str) -> (r: Option<ModelConfig>)
    ensures
        r.deep_view() == read_model_config(j@, key@),
{
    match j.get(key) {
        Some(v) => decode_model_config(v),
        None => None,
    }
}

/// The names of the members of the model of an agent differ.
pub proof fn lemma_model_config_keys()
    ensures
        "model_endpoint"@ != "context_window"@,
        "model_endpoint"@ != "temperature"@,
        "model_endpoint"@ != "max_tokens"@,
        "context_window"@ != "temperature"@,
        "context_window"@ != "max_tokens"@,
        "temperature"@ != "max_tokens"@,
{
    reveal_strlit("model_endpoint");
    reveal_strlit("context_window");
    reveal_strlit("temperature");
    reveal_strlit("max_tokens");
    assert("model_endpoint"@.len() == 14);
    assert("context_window"@.len() == 14);
    assert("temperature"@.len() == 11);
    assert("max_tokens"@.len() == 10);
    assert("model_endpoint"@[0] != "context_window"@[0]);
}

/// The model of an agent that is written is read as it was.
pub proof fn lemma_model_config_round_trip(c: ModelConfigModel)
    requires
        model_config_fits(c),
    ensures
        model_config_of_json(model_config_json(c)) == Some(c),
{
    lemma_model_config_keys();
    match c.temperature {
        Some(v) => {
            lemma_temperature_round_trip(v);
        },
        None => {},
    }
}

/// What a `ModelConfig` holds can be written and read again.
pub proof fn lemma_model_config_view_fits(c: ModelConfig)
    ensures
        model_config_fits(c@),
{
}

/// The members of what a document says of itself in a document.
pub open spec fn file_metadata_members(m: FileMetadataModel) -> Map<Seq<char>, JsonValue> {
    let members = no_members().insert("letta_version"@, JsonValue::Text(m.letta_version));
    let members = members.insert("export_time"@, JsonValue::Text(m.export_time));
    let members = members.insert("export_source"@, JsonValue::Text(m.export_source));
    let members = match m.additional {
        Some(v) => members.insert("additional"@, v),
        None => members,
    };
    members
}

/// What a document says of itself as a JSON object.
pub open spec fn file_metadata_json(m: FileMetadataModel) -> JsonValue {
    JsonValue::Object(file_metadata_members(m))
}

/// What a document says of itself that a JSON value holds, or `None` where the value is
/// no such record.
pub open spec fn file_metadata_of_json(j: JsonValue) -> Option<FileMetadataModel> {
    match (
        j.text_member("letta_version"@),
        j.text_member("export_time"@),
        j.text_member("export_source"@),
        Some(j.member("additional"@)),
    ) {
        (
            Some(letta_version),
            Some(export_time),
            Some(export_source),
            Some(additional),
        ) => Some(
            FileMetadataModel {
                letta_version,
                export_time,
                export_source,
                additional,
            },
        ),
        _ => None,
    }
}

/// What a document says of itself that the member `key` holds.
pub open spec fn read_file_metadata(j: JsonValue, key: Seq<char>) -> Option<FileMetadataModel> {
    match j.member(key) {
        Some(v) => file_metadata_of_json(v),
        None => None,
    }
}

/// What a document says of itself can be written and read again: a value
/// that it may lack is not `null`.
pub open spec fn file_metadata_fits(m: FileMetadataModel) -> bool {
    true
}

/// Writes what a document says of itself as a JSON object.
pub fn encode_file_metadata(m: &AgentFileMetadata) -> (j: Json)
    ensures
        j@ == file_metadata_json(m@),
{
    let mut object = ObjectBuilder::new();
    object.put("letta_version", Json::Text(m.letta_version.clone()));
    object.put("export_time", Json::Text(m.export_time.text.clone()));
    object.put("export_source", Json::Text(m.export_source.clone()));
    match &m.additional {
        Some(v) => {
            object.put("additional", v.clone());
        },
        None => {},
    }
    object.build()
}

/// Reads what a document says of itself from a JSON value.
pub fn decode_file_metadata(j: &Json) -> (r: Option<AgentFileMetadata>)
    ensures
        r.deep_view() == file_metadata_of_json(j@),
{
    let letta_version = match j.get_str("letta_version") {
        Some(v) => v.to_owned(),
        None => {
            return None;
        },
    };
    let export_time = match j.get_str("export_time") {
        Some(v) => Timestamp { text: v.to_owned() },
        None => {
            return None;
        },
    };
    let export_source = match j.get_str("export_source") {
        Some(v) => v.to_owned(),
        None => {
            return None;
        },
    };
    let additional = match j.get("additional") {
        Some(v) => Some(v.clone()),
        None => None,
    };
    Some(AgentFileMetadata { letta_version, export_time, export_source, additional })
}

fn get_file_metadata(j: &Json, key: &str) -> (r: Option<AgentFileMetadata>)
    ensures
        r.deep_view() == read_file_metadata(j@, key@),
{
    match j.get(key) {
        Some(v) => decode_file_metadata(v),
        None => None,
    }
}

/// The names of the members of what a document says of itself differ.
pub proof fn lemma_file_metadata_keys()
    ensures
        "letta_version"@ != "export_time"@,
        "letta_version"@ != "export_source"@,
        "letta_version"@ != "additional"@,
        "export_time"@ != "export_source"@,
        "export_time"@ != "additional"@,
        "export_source"@ != "additional"@,
{
    reveal_strlit("letta_version");
    reveal_strlit("export_time");
    reveal_strlit("export_source");
    reveal_strlit("additional");
    assert("letta_version"@.len() == 13);
    assert("export_time"@.len() == 11);
    assert("export_source"@.len() == 13);
    assert("additional"@.len() == 10);
    assert("letta_version"@[0] != "export_source"@[0]);
}

/// What a document says of itself that is written is read as it was.
pub proof fn lemma_file_metadata_round_trip(m: FileMetadataModel)
    requires
        file_metadata_fits(m),
    ensures
        file_metadata_of_json(file_metadata_json(m)) == Some(m),
{
    lemma_file_metadata_keys();
}

/// What an `AgentFileMetadata` holds can be written and read again.
pub proof fn lemma_file_metadata_view_fits(m: AgentFileMetadata)
    ensures
        file_metadata_fits(m@),
{
}

/// The members of the memory of an agent in a document.
pub open spec fn memory_export_members(m: MemoryExportModel) -> Map<Seq<char>, JsonValue> {
    let members = no_members().insert("memory_class"@, JsonValue::Text(m.memory_class));
    let members = members.insert("blocks"@, texts_json(m.blocks));
    let members = match m.template {
        Some(v) => members.insert("template"@, JsonValue::Text(v)),
        None => members,
    };
    members
}

/// The memory of an agent as a JSON object.
pub open spec fn memory_export_json(m: MemoryExportModel) -> JsonValue {
    JsonValue::Object(memory_export_members(m))
}

/// The memory of an agent that a JSON value holds, or `None` where the value is
/// no such record.
pub open spec fn memory_export_of_json(j: JsonValue) -> Option<MemoryExportModel> {
    match (
        j.text_member("memory_class"@),
        read_texts(j, "blocks"@),
        read_opt_text(j, "template"@),
    ) {
        (
            Some(memory_class),
            Some(blocks),
            Some(template),
        ) => Some(
            MemoryExportModel {
                memory_class,
                blocks,
                template,
            },
        ),
        _ => None,
    }
}

/// The memory of an agent that the member `key` holds.
pub open spec fn read_memory_export(j: JsonValue, key: Seq<char>) -> Option<MemoryExportModel> {
    match j.member(key) {
        Some(v) => memory_export_of_json(v),
        None => None,
    }
}

/// The memory of an agent can be written and read again, as every one can.
pub open spec fn memory_export_fits(m: MemoryExportModel) -> bool {
    true
}

/// Writes the memory of an agent as a JSON object.
pub fn encode_memory_export(m: &MemoryExport) -> (j: Json)
    ensures
        j@ == memory_export_json(m@),
{
    let mut object = ObjectBuilder::new();
    object.put("memory_class", Json::Text(m.memory_class.clone()));
    object.put("blocks", texts_to_json(&m.blocks));
    match &m.template {
        Some(v) => {
            object.put("template", Json::Text(v.clone()));
        },
        None => {},
    }
    object.build()
}

/// Reads the memory of an agent from a JSON value.
pub fn decode_memory_export(j: &Json) -> (r: Option<MemoryExport>)
    ensures
        r.deep_view() == memory_export_of_json(j@),
{
    let memory_class = match j.get_str("memory_class") {
        Some(v) => v.to_owned(),
        None => {
            return None;
        },
    };
    let blocks = match get_texts(j, "blocks") {
        Some(v) => v,
        None => {
            return None;
        },
    };
    let template = match get_opt_text(j, "template") {
        Some(v) => v,
        None => {
            return None;
        },
    };
    Some(MemoryExport { memory_class, blocks, template })
}

fn get_memory_export(j: &Json, key: &str) -> (r: Option<MemoryExport>)
    ensures
        r.deep_view() == read_memory_export(j@, key@),
{
    match j.get(key) {
        Some(v) => decode_memory_export(v),
        None => None,
    }
}

/// The names of the members of the memory of an agent differ.
pub proof fn lemma_memory_export_keys()
    ensures
        "memory_class"@ != "blocks"@,
        "memory_class"@ != "template"@,
        "blocks"@ != "template"@,
{
    reveal_strlit("memory_class");
    reveal_strlit("blocks");
    reveal_strlit("template");
    assert("memory_class"@.len() == 12);
    assert("blocks"@.len() == 6);
    assert("template"@.len() == 8);
}

/// The memory of an agent that is written is read as it was.
pub proof fn lemma_memory_export_round_trip(m: MemoryExportModel)
    requires
        memory_export_fits(m),
    ensures
        memory_export_of_json(memory_export_json(m)) == Some(m),
{
    lemma_memory_export_keys();
    lemma_texts_round_trip(m.blocks);
}

/// What a `MemoryExport` holds can be written and read again.
pub proof fn lemma_memory_export_view_fits(m: MemoryExport)
    ensures
        memory_export_fits(m@),
{
}

/// The members of the state of an agent in a document.
pub open spec fn agent_state_members(s: AgentStateModel) -> Map<Seq<char>, JsonValue> {
    let members = no_members().insert("user_id"@, text_or_null(s.user_id));
    let members = members.insert("created_at"@, JsonValue::Text(s.created_at));
    let members = members.insert("updated_at"@, JsonValue::Text(s.updated_at));
    let members = members.insert("tools"@, texts_json(s.tools));
    let members = match s.tool_rules {
        Some(v) => members.insert("tool_rules"@, tool_rules_json(v)),
        None => members,
    };
    let members = members.insert("memory"@, memory_export_json(s.memory));
    let members = match s.metadata {
        Some(v) => members.insert("metadata"@, v),
        None => members,
    };
    members
}

/// The state of an agent as a JSON object.
pub open spec fn agent_state_json(s: AgentStateModel) -> JsonValue {
    JsonValue::Object(agent_state_members(s))
}

/// The state of an agent that a JSON value holds, or `None` where the value is
/// no such record.
pub open spec fn agent_state_of_json(j: JsonValue) -> Option<AgentStateModel> {
    match (
        read_opt_text(j, "user_id"@),
        j.text_member("created_at"@),
        j.text_member("updated_at"@),
        read_texts(j, "tools"@),
        read_opt_tool_rules(j, "tool_rules"@),
        read_memory_export(j, "memory"@),
        Some(j.member("metadata"@)),
    ) {
        (
            Some(user_id),
            Some(created_at),
            Some(updated_at),
            Some(tools),
            Some(tool_rules),
            Some(memory),
            Some(metadata),
        ) => Some(
            AgentStateModel {
                user_id,
                created_at,
                updated_at,
                tools,
                tool_rules,
                memory,
                metadata,
            },
        ),
        _ => None,
    }
}

/// The state of an agent that the member `key` holds.
pub open spec fn read_agent_state(j: JsonValue, key: Seq<char>) -> Option<AgentStateModel> {
    match j.member(key) {
        Some(v) => agent_state_of_json(v),
        None => None,
    }
}

/// The state of an agent can be written and read again: a value that it may
/// lack is not `null`, and the records in it can be written and read again.
pub open spec fn agent_state_fits(s: AgentStateModel) -> bool {
    &&& (s.tool_rules matches Some(v) ==> tool_rules_fit(v))
    &&& memory_export_fits(s.memory)
}

/// Writes the state of an agent as a JSON object.
pub fn encode_agent_state(s: &AgentStateExport) -> (j: Json)
    ensures
        j@ == agent_state_json(s@),
{
    let mut object = ObjectBuilder::new();
    object.put("user_id", encode_opt_text(&s.user_id));
    object.put("created_at", Json::Text(s.created_at.text.clone()));
    object.put("updated_at", Json::Text(s.updated_at.text.clone()));
    object.put("tools", texts_to_json(&s.tools));
    match &s.tool_rules {
        Some(v) => {
            object.put("tool_rules", encode_tool_rules(v));
        },
        None => {},
    }
    object.put("memory", encode_memory_export(&s.memory));
    match &s.metadata {
        Some(v) => {
            object.put("metadata", v.clone());
        },
        None => {},
    }
    object.build()
}

/// Reads the state of an agent from a JSON value.
pub fn decode_agent_state(j: &Json) -> (r: Option<AgentStateExport>)
    ensures
        r.deep_view() == agent_state_of_json(j@),
{
    let user_id = match get_opt_text(j, "user_id") {
        Some(v) => v,
        None => {
            return None;
        },
    };
    let created_at = match j.get_str("created_at") {
        Some(v) => Timestamp { text: v.to_owned() },
        None => {
            return None;
        },
    };
    let updated_at = match j.get_str("updated_at") {
        Some(v) => Timestamp { text: v.to_owned() },
        None => {
            return None;
        },
    };
    let tools = match get_texts(j, "tools") {
        Some(v) => v,
        None => {
            return None;
        },
    };
    let tool_rules = match get_opt_tool_rules(j, "tool_rules") {
        Some(v) => v,
        None => {
            return None;
        },
    };
    let memory = match get_memory_export(j, "memory") {
        Some(v) => v,
        None => {
            return None;
        },
    };
    let metadata = match j.get("metadata") {
        Some(v) => Some(v.clone()),
        None => None,
    };
    Some(AgentStateExport { user_id, created_at, updated_at, tools, tool_rules, memory, metadata })
}

fn get_agent_state(j: &Json, key: &str) -> (r: Option<AgentStateExport>)
    ensures
        r.deep_view() == read_agent_state(j@, key@),
{
    match j.get(key) {
        Some(v) => decode_agent_state(v),
        None => None,
    }
}

/// The names of the members of the state of an agent differ.
pub proof fn lemma_agent_state_keys()
    ensures
        "user_id"@ != "created_at"@,
        "user_id"@ != "updated_at"@,
        "user_id"@ != "tools"@,
        "user_id"@ != "tool_rules"@,
        "user_id"@ != "memory"@,
        "user_id"@ != "metadata"@,
        "created_at"@ != "updated_at"@,
        "created_at"@ != "tools"@,
        "created_at"@ != "tool_rules"@,
        "created_at"@ != "memory"@,
        "created_at"@ != "metadata"@,
        "updated_at"@ != "tools"@,
        "updated_at"@ != "tool_rules"@,
        "updated_at"@ != "memory"@,
        "updated_at"@ != "metadata"@,
        "tools"@ != "tool_rules"@,
        "tools"@ != "memory"@,
        "tools"@ != "metadata"@,
        "tool_rules"@ != "memory"@,
        "tool_rules"@ != "metadata"@,
        "memory"@ != "metadata"@,
{
    reveal_strlit("user_id");
    reveal_strlit("created_at");
    reveal_strlit("updated_at");
    reveal_strlit("tools");
    reveal_strlit("tool_rules");
    reveal_strlit("memory");
    reveal_strlit("metadata");
    assert("user_id"@.len() == 7);
    assert("created_at"@.len() == 10);
    assert("updated_at"@.len() == 10);
    assert("tools"@.len() == 5);
    assert("tool_rules"@.len() == 10);
    assert("memory"@.len() == 6);
    assert("metadata"@.len() == 8);
    assert("created_at"@[0] != "updated_at"@[0]);
    assert("created_at"@[0] != "tool_rules"@[0]);
    assert("updated_at"@[0] != "tool_rules"@[0]);
}

/// The state of an agent that is written is read as it was.
pub proof fn lemma_agent_state_round_trip(s: AgentStateModel)
    requires
        agent_state_fits(s),
    ensures
        agent_state_of_json(agent_state_json(s)) == Some(s),
{
    lemma_agent_state_keys();
    lemma_texts_round_trip(s.tools);
    match s.tool_rules {
        Some(v) => {
            lemma_tool_rules_round_trip(v);
        },
        None => {},
    }
    lemma_memory_export_round_trip(s.memory);
}

/// What an `AgentStateExport` holds can be written and read again.
pub proof fn lemma_agent_state_view_fits(s: AgentStateExport)
    ensures
        agent_state_fits(s@),
{
    match s.tool_rules {
        Some(v) => {
            assert forall|i: int| 0 <= i < v.deep_view().len() implies tool_rule_fits(
                #[trigger] v.deep_view()[i],
            ) by {
                lemma_tool_rule_view_fits(v@[i]);
            }
        },
        None => {},
    }
    lemma_memory_export_view_fits(s.memory);
}

/// The members of an agent in a document.
pub open spec fn agent_members(a: AgentExportModel) -> Map<Seq<char>, JsonValue> {
    let members = no_members().insert("id"@, JsonValue::Text(a.id));
    let members = members.insert("name"@, JsonValue::Text(a.name));
    let members = members.insert("system_prompt"@, JsonValue::Text(a.system_prompt));
    let members = members.insert("message_buffer_size"@, JsonValue::Number(a.message_buffer_size as int));
    let members = members.insert("agent_state"@, agent_state_json(a.agent_state));
    let members = members.insert("messages"@, messages_json(a.messages));
    let members = members.insert("model"@, model_config_json(a.model));
    members
}

/// An agent as a JSON object.
pub open spec fn agent_json(a: AgentExportModel) -> JsonValue {
    JsonValue::Object(agent_members(a))
}

/// An agent that a JSON value holds, or `None` where the value is
/// no such record.
pub open spec fn agent_of_json(j: JsonValue) -> Option<AgentExportModel> {
    match (
        j.text_member("id"@),
        j.text_member("name"@),
        j.text_member("system_prompt"@),
        j.size_member("message_buffer_size"@),
        read_agent_state(j, "agent_state"@),
        read_messages(j, "messages"@),
        read_model_config(j, "model"@),
    ) {
        (
            Some(id),
            Some(name),
            Some(system_prompt),
            Some(message_buffer_size),
            Some(agent_state),
            Some(messages),
            Some(model),
        ) => Some(
            AgentExportModel {
                id,
                name,
                system_prompt,
                message_buffer_size: message_buffer_size as nat,
                agent_state,
                messages,
                model,
            },
        ),
        _ => None,
    }
}

/// An agent can be written and read again: its sizes fit `usize`, and the
/// records in it can be written and read again.
pub open spec fn agent_fits(a: AgentExportModel) -> bool {
    &&& a.message_buffer_size <= usize::MAX
    &&& agent_state_fits(a.agent_state)
    &&& messages_fit(a.messages)
    &&& model_config_fits(a.model)
}

/// A list of records as a JSON array.
pub open spec fn agents_json(list: Seq<AgentExportModel>) -> JsonValue {
    JsonValue::Array(Seq::new(list.len(), |i: int| agent_json(list[i])))
}

/// The records that a JSON array holds, or `None` where the value is no
/// array of such records.
pub open spec fn agents_of_json(v: JsonValue) -> Option<Seq<AgentExportModel>> {
    match v {
        JsonValue::Array(items) => if forall|i: int|
            0 <= i < items.len() ==> agent_of_json(#[trigger] items[i]) is Some {
            Some(Seq::new(items.len(), |i: int| agent_of_json(items[i])->0))
        } else {
            None
        },
        _ => None,
    }
}

/// The records that the member `key` holds.
pub open spec fn read_agents(j: JsonValue, key: Seq<char>) -> Option<Seq<AgentExportModel>> {
    match j.member(key) {
        Some(v) => agents_of_json(v),
        None => None,
    }
}

/// Every record of the list can be written and read again.
pub open spec fn agents_fit(list: Seq<AgentExportModel>) -> bool {
    forall|i: int| 0 <= i < list.len() ==> agent_fits(#[trigger] list[i])
}

/// Writes an agent as a JSON object.
pub fn encode_agent(a: &AgentExport) -> (j: Json)
    ensures
        j@ == agent_json(a@),
{
    let mut object = ObjectBuilder::new();
    object.put("id", Json::Text(a.id.clone()));
    object.put("name", Json::Text(a.name.clone()));
    object.put("system_prompt", Json::Text(a.system_prompt.clone()));
    object.put("message_buffer_size", Json::UInt(a.message_buffer_size as u64));
    object.put("agent_state", encode_agent_state(&a.agent_state));
    object.put("messages", encode_messages(&a.messages));
    object.put("model", encode_model_config(&a.model));
    object.build()
}

/// Reads an agent from a JSON value.
pub fn decode_agent(j: &Json) -> (r: Option<AgentExport>)
    ensures
        r.deep_view() == agent_of_json(j@),
{
    let id = match j.get_str("id") {
        Some(v) => v.to_owned(),
        None => {
            return None;
        },
    };
    let name = match j.get_str("name") {
        Some(v) => v.to_owned(),
        None => {
            return None;
        },
    };
    let system_prompt = match j.get_str("system_prompt") {
        Some(v) => v.to_owned(),
        None => {
            return None;
        },
    };
    let message_buffer_size = match j.get_usize("message_buffer_size") {
        Some(v) => v,
        None => {
            return None;
        },
    };
    let agent_state = match get_agent_state(j, "agent_state") {
        Some(v) => v,
        None => {
            return None;
        },
    };
    let messages = match get_messages(j, "messages") {
        Some(v) => v,
        None => {
            return None;
        },
    };
    let model = match get_model_config(j, "model") {
        Some(v) => v,
        None => {
            return None;
        },
    };
    Some(AgentExport { id, name, system_prompt, message_buffer_size, agent_state, messages, model })
}

/// Writes a list of records as a JSON array.
pub fn encode_agents(list: &Vec<AgentExport>) -> (j: Json)
    ensures
        j@ == agents_json(list.deep_view()),
{
    let mut items: Vec<Json> = Vec::new();
    let mut i: usize = 0;
    while i < list.len()
        invariant
            i <= list.len(),
            items.len() == i,
            forall|k: int| 0 <= k < i ==> items@[k]@ == agent_json(list@[k]@),
        decreases list.len() - i,
    {
        items.push(encode_agent(&list[i]));
        i += 1;
    }
    assert(items.deep_view() =~= Seq::new(
        list.deep_view().len(),
        |i: int| agent_json(list.deep_view()[i]),
    ));
    Json::array(items)
}

/// Reads a list of records from a JSON array.
pub fn decode_agents(j: &Json) -> (r: Option<Vec<AgentExport>>)
    ensures
        r.deep_view() == agents_of_json(j@),
{
    let items = match j.as_array() {
        Some(items) => items,
        None => {
            return None;
        },
    };
    let ghost all = items.deep_view();
    let mut out: Vec<AgentExport> = Vec::new();
    let mut i: usize = 0;
    while i < items.len()
        invariant
            i <= items.len(),
            all == items.deep_view(),
            j@ == JsonValue::Array(all),
            out.len() == i,
            forall|k: int|
                0 <= k < i ==> agent_of_json(#[trigger] all[k]) == Some(out@[k]@),
        decreases items.len() - i,
    {
        match decode_agent(&items[i]) {
            Some(record) => {
                out.push(record);
            },
            None => {
                assert(agent_of_json(all[i as int]) is None);
                return None;
            },
        }
        i += 1;
    }
    assert(out.deep_view() =~= Seq::new(
        all.len(),
        |i: int| agent_of_json(all[i])->0,
    ));
    Some(out)
}

fn get_agents(j: &Json, key: &str) -> (r: Option<Vec<AgentExport>>)
    ensures
        r.deep_view() == read_agents(j@, key@),
{
    match j.get(key) {
        Some(v) => decode_agents(v),
        None => None,
    }
}

/// The names of the members of an agent differ.
pub proof fn lemma_agent_keys()
    ensures
        "id"@ != "name"@,
        "id"@ != "system_prompt"@,
        "id"@ != "message_buffer_size"@,
        "id"@ != "agent_state"@,
        "id"@ != "messages"@,
        "id"@ != "model"@,
        "name"@ != "system_prompt"@,
        "name"@ != "message_buffer_size"@,
        "name"@ != "agent_state"@,
        "name"@ != "messages"@,
        "name"@ != "model"@,
        "system_prompt"@ != "message_buffer_size"@,
        "system_prompt"@ != "agent_state"@,
        "system_prompt"@ != "messages"@,
        "system_prompt"@ != "model"@,
        "message_buffer_size"@ != "agent_state"@,
        "message_buffer_size"@ != "messages"@,
        "message_buffer_size"@ != "model"@,
        "agent_state"@ != "messages"@,
        "agent_state"@ != "model"@,
        "messages"@ != "model"@,
{
    reveal_strlit("id");
    reveal_strlit("name");
    reveal_strlit("system_prompt");
    reveal_strlit("message_buffer_size");
    reveal_strlit("agent_state");
    reveal_strlit("messages");
    reveal_strlit("model");
    assert("id"@.len() == 2);
    assert("name"@.len() == 4);
    assert("system_prompt"@.len() == 13);
    assert("message_buffer_size"@.len() == 19);
    assert("agent_state"@.len() == 11);
    assert("messages"@.len() == 8);
    assert("model"@.len() == 5);
}

/// An agent that is written is read as it was.
pub proof fn lemma_agent_round_trip(a: AgentExportModel)
    requires
        agent_fits(a),
    ensures
        agent_of_json(agent_json(a)) == Some(a),
{
    lemma_agent_keys();
    lemma_agent_state_round_trip(a.agent_state);
    lemma_messages_round_trip(a.messages);
    lemma_model_config_round_trip(a.model);
}

/// A list of records that is written is read as it was.
pub proof fn lemma_agents_round_trip(list: Seq<AgentExportModel>)
    requires
        agents_fit(list),
    ensures
        agents_of_json(agents_json(list)) == Some(list),
{
    let items = Seq::new(list.len(), |i: int| agent_json(list[i]));
    assert forall|i: int| 0 <= i < items.len() implies agent_of_json(#[trigger] items[i])
        == Some(list[i]) by {
        lemma_agent_round_trip(list[i]);
    }
    assert(Seq::new(items.len(), |i: int| agent_of_json(items[i])->0) =~= list);
}

/// What an `AgentExport` holds can be written and read again.
pub proof fn lemma_agent_view_fits(a: AgentExport)
    ensures
        agent_fits(a@),
{
    lemma_agent_state_view_fits(a.agent_state);
    assert forall|i: int| 0 <= i < a.messages.deep_view().len() implies message_fits(
        #[trigger] a.messages.deep_view()[i],
    ) by {
        lemma_message_view_fits(a.messages@[i]);
    }
    lemma_model_config_view_fits(a.model);
}

/// The members of an agent file in a document.
pub open spec fn agent_file_members(af: AgentFileModel) -> Map<Seq<char>, JsonValue> {
    let members = no_members().insert("version"@, JsonValue::Text(af.version));
    let members = members.insert("agents"@, agents_json(af.agents));
    let members = match af.groups {
        Some(v) => members.insert("groups"@, groups_json(v)),
        None => members,
    };
    let members = members.insert("blocks"@, blocks_json(af.blocks));
    let members = match af.files {
        Some(v) => members.insert("files"@, files_json(v)),
        None => members,
    };
    let members = match af.sources {
        Some(v) => members.insert("sources"@, sources_json(v)),
        None => members,
    };
    let members = match af.tools {
        Some(v) => members.insert("tools"@, tools_json(v)),
        None => members,
    };
    let members = match af.mcp_servers {
        Some(v) => members.insert("mcp_servers"@, mcp_servers_json(v)),
        None => members,
    };
    let members = members.insert("metadata"@, file_metadata_json(af.metadata));
    members
}

/// An agent file as a JSON object.
pub open spec fn agent_file_json(af: AgentFileModel) -> JsonValue {
    JsonValue::Object(agent_file_members(af))
}

/// An agent file that a JSON value holds, or `None` where the value is
/// no such record.
pub open spec fn agent_file_of_json(j: JsonValue) -> Option<AgentFileModel> {
    match (
        j.text_member("version"@),
        read_agents(j, "agents"@),
        read_opt_groups(j, "groups"@),
        read_blocks(j, "blocks"@),
        read_opt_files(j, "files"@),
        read_opt_sources(j, "sources"@),
        read_opt_tools(j, "tools"@),
        read_opt_mcp_servers(j, "mcp_servers"@),
        read_file_metadata(j, "metadata"@),
    ) {
        (
            Some(version),
            Some(agents),
            Some(groups),
            Some(blocks),
            Some(files),
            Some(sources),
            Some(tools),
            Some(mcp_servers),
            Some(metadata),
        ) => Some(
            AgentFileModel {
                version,
                agents,
                groups,
                blocks,
                files,
                sources,
                tools,
                mcp_servers,
                metadata,
            },
        ),
        _ => None,
    }
}

/// An agent file that the member `key` holds.
pub open spec fn read_agent_file(j: JsonValue, key: Seq<char>) -> Option<AgentFileModel> {
    match j.member(key) {
        Some(v) => agent_file_of_json(v),
        None => None,
    }
}

/// An agent file of the member `key` that a record may lack.
pub open spec fn read_opt_agent_file(j: JsonValue, key: Seq<char>) -> Option<
    Option<AgentFileModel>,
> {
    match j.present(key) {
        None => Some(None),
        Some(v) => match agent_file_of_json(v) {
            Some(record) => Some(Some(record)),
            None => None,
        },
    }
}

/// An agent file can be written and read again: the records in it can be
/// written and read again.
pub open spec fn agent_file_fits(af: AgentFileModel) -> bool {
    &&& agents_fit(af.agents)
    &&& (af.groups matches Some(v) ==> groups_fit(v))
    &&& blocks_fit(af.blocks)
    &&& (af.files matches Some(v) ==> files_fit(v))
    &&& (af.sources matches Some(v) ==> sources_fit(v))
    &&& (af.tools matches Some(v) ==> tools_fit(v))
    &&& (af.mcp_servers matches Some(v) ==> mcp_servers_fit(v))
    &&& file_metadata_fits(af.metadata)
}

/// Writes an agent file as a JSON object.
pub fn encode_agent_file(af: &AgentFileV1) -> (j: Json)
    ensures
        j@ == agent_file_json(af@),
{
    let mut object = ObjectBuilder::new();
    object.put("version", Json::Text(af.version.clone()));
    object.put("agents", encode_agents(&af.agents));
    match &af.groups {
        Some(v) => {
            object.put("groups", encode_groups(v));
        },
        None => {},
    }
    object.put("blocks", encode_blocks(&af.blocks));
    match &af.files {
        Some(v) => {
            object.put("files", encode_files(v));
        },
        None => {},
    }
    match &af.sources {
        Some(v) => {
            object.put("sources", encode_sources(v));
        },
        None => {},
    }
    match &af.tools {
        Some(v) => {
            object.put("tools", encode_tools(v));
        },
        None => {},
    }
    match &af.mcp_servers {
        Some(v) => {
            object.put("mcp_servers", encode_mcp_servers(v));
        },
        None => {},
    }
    object.put("metadata", encode_file_metadata(&af.metadata));
    object.build()
}

/// Reads an agent file from a JSON value.
pub fn decode_agent_file(j: &Json) -> (r: Option<AgentFileV1>)
    ensures
        r.deep_view() == agent_file_of_json(j@),
{
    let version = match j.get_str("version") {
        Some(v) => v.to_owned(),
        None => {
            return None;
        },
    };
    let agents = match get_agents(j, "agents") {
        Some(v) => v,
        None => {
            return None;
        },
    };
    let groups = match get_opt_groups(j, "groups") {
        Some(v) => v,
        None => {
            return None;
        },
    };
    let blocks = match get_blocks(j, "blocks") {
        Some(v) => v,
        None => {
            return None;
        },
    };
    let files = match get_opt_files(j, "files") {
        Some(v) => v,
        None => {
            return None;
        },
    };
    let sources = match get_opt_sources(j, "sources") {
        Some(v) => v,
        None => {
            return None;
        },
    };
    let tools = match get_opt_tools(j, "tools") {
        Some(v) => v,
        None => {
            return None;
        },
    };
    let mcp_servers = match get_opt_mcp_servers(j, "mcp_servers") {
        Some(v) => v,
        None => {
            return None;
        },
    };
    let metadata = match get_file_metadata(j, "metadata") {
        Some(v) => v,
        None => {
            return None;
        },
    };
    Some(AgentFileV1 { version, agents, groups, blocks, files, sources, tools, mcp_servers, metadata })
}

fn get_agent_file(j: &Json, key: &str) -> (r: Option<AgentFileV1>)
    ensures
        r.deep_view() == read_agent_file(j@, key@),
{
    match j.get(key) {
        Some(v) => decode_agent_file(v),
        None => None,
    }
}

fn get_opt_agent_file(j: &Json, key: &str) -> (r: Option<Option<AgentFileV1>>)
    ensures
        r.deep_view() == read_opt_agent_file(j@, key@),
{
    match j.get_present(key) {
        None => Some(None),
        Some(v) => match decode_agent_file(v) {
            Some(record) => Some(Some(record)),
            None => None,
        },
    }
}

/// The names of the members of an agent file differ.
pub proof fn lemma_agent_file_keys()
    ensures
        "version"@ != "agents"@,
        "version"@ != "groups"@,
        "version"@ != "blocks"@,
        "version"@ != "files"@,
        "version"@ != "sources"@,
        "version"@ != "tools"@,
        "version"@ != "mcp_servers"@,
        "version"@ != "metadata"@,
        "agents"@ != "groups"@,
        "agents"@ != "blocks"@,
        "agents"@ != "files"@,
        "agents"@ != "sources"@,
        "agents"@ != "tools"@,
        "agents"@ != "mcp_servers"@,
        "agents"@ != "metadata"@,
        "groups"@ != "blocks"@,
        "groups"@ != "files"@,
        "groups"@ != "sources"@,
        "groups"@ != "tools"@,
        "groups"@ != "mcp_servers"@,
        "groups"@ != "metadata"@,
        "blocks"@ != "files"@,
        "blocks"@ != "sources"@,
        "blocks"@ != "tools"@,
        "blocks"@ != "mcp_servers"@,
        "blocks"@ != "metadata"@,
        "files"@ != "sources"@,
        "files"@ != "tools"@,
        "files"@ != "mcp_servers"@,
        "files"@ != "metadata"@,
        "sources"@ != "tools"@,
        "sources"@ != "mcp_servers"@,
        "sources"@ != "metadata"@,
        "tools"@ != "mcp_servers"@,
        "tools"@ != "metadata"@,
        "mcp_servers"@ != "metadata"@,
{
    reveal_strlit("version");
    reveal_strlit("agents");
    reveal_strlit("groups");
    reveal_strlit("blocks");
    reveal_strlit("files");
    reveal_strlit("sources");
    reveal_strlit("tools");
    reveal_strlit("mcp_servers");
    reveal_strlit("metadata");
    assert("version"@.len() == 7);
    assert("agents"@.len() == 6);
    assert("groups"@.len() == 6);
    assert("blocks"@.len() == 6);
    assert("files"@.len() == 5);
    assert("sources"@.len() == 7);
    assert("tools"@.len() == 5);
    assert("mcp_servers"@.len() == 11);
    assert("metadata"@.len() == 8);
    assert("version"@[0] != "sources"@[0]);
    assert("agents"@[0] != "groups"@[0]);
    assert("agents"@[0] != "blocks"@[0]);
    assert("groups"@[0] != "blocks"@[0]);
    assert("files"@[0] != "tools"@[0]);
}

/// An agent file that is written is read as it was.
pub proof fn lemma_agent_file_round_trip(af: AgentFileModel)
    requires
        agent_file_fits(af),
    ensures
        agent_file_of_json(agent_file_json(af)) == Some(af),
{
    lemma_agent_file_keys();
    lemma_agents_round_trip(af.agents);
    match af.groups {
        Some(v) => {
            lemma_groups_round_trip(v);
        },
        None => {},
    }
    lemma_blocks_round_trip(af.blocks);
    match af.files {
        Some(v) => {
            lemma_files_round_trip(v);
        },
        None => {},
    }
    match af.sources {
        Some(v) => {
            lemma_sources_round_trip(v);
        },
        None => {},
    }
    match af.tools {
        Some(v) => {
            lemma_tools_round_trip(v);
        },
        None => {},
    }
    match af.mcp_servers {
        Some(v) => {
            lemma_mcp_servers_round_trip(v);
        },
        None => {},
    }
    lemma_file_metadata_round_trip(af.metadata);
}

/// What an `AgentFileV1` holds can be written and read again.
pub proof fn lemma_agent_file_view_fits(af: AgentFileV1)
    ensures
        agent_file_fits(af@),
{
    assert forall|i: int| 0 <= i < af.agents.deep_view().len() implies agent_fits(
        #[trigger] af.agents.deep_view()[i],
    ) by {
        lemma_agent_view_fits(af.agents@[i]);
    }
    match af.groups {
        Some(v) => {
            assert forall|i: int| 0 <= i < v.deep_view().len() implies group_fits(
                #[trigger] v.deep_view()[i],
            ) by {
                lemma_group_view_fits(v@[i]);
            }
        },
        None => {},
    }
    assert forall|i: int| 0 <= i < af.blocks.deep_view().len() implies block_fits(
        #[trigger] af.blocks.deep_view()[i],
    ) by {
        lemma_block_view_fits(af.blocks@[i]);
    }
    match af.files {
        Some(v) => {
            assert forall|i: int| 0 <= i < v.deep_view().len() implies file_fits(
                #[trigger] v.deep_view()[i],
            ) by {
                lemma_file_view_fits(v@[i]);
            }
        },
        None => {},
    }
    match af.sources {
        Some(v) => {
            assert forall|i: int| 0 <= i < v.deep_view().len() implies source_fits(
                #[trigger] v.deep_view()[i],
            ) by {
                lemma_source_view_fits(v@[i]);
            }
        },
        None => {},
    }
    match af.tools {
        Some(v) => {
            assert forall|i: int| 0 <= i < v.deep_view().len() implies tool_fits(
                #[trigger] v.deep_view()[i],
            ) by {
                lemma_tool_view_fits(v@[i]);
            }
        },
        None => {},
    }
    match af.mcp_servers {
        Some(v) => {
            assert forall|i: int| 0 <= i < v.deep_view().len() implies mcp_server_fits(
                #[trigger] v.deep_view()[i],
            ) by {
                lemma_mcp_server_view_fits(v@[i]);
            }
        },
        None => {},
    }
    lemma_file_metadata_view_fits(af.metadata);
}


/// The members of a conflict in a document.
pub open spec fn conflict_members(c: ConflictModel) -> Map<Seq<char>, JsonValue> {
    let members = no_members().insert("field"@, JsonValue::Text(c.field));
    let members = members.insert("local_value"@, c.local_value);
    let members = members.insert("cloud_value"@, c.cloud_value);
    let members = members.insert("resolution"@, JsonValue::Text(c.resolution));
    members
}

/// A conflict as a JSON object.
pub open spec fn conflict_json(c: ConflictModel) -> JsonValue {
    JsonValue::Object(conflict_members(c))
}

/// A conflict that a JSON value holds, or `None` where the value is
/// no such record.
pub open spec fn conflict_of_json(j: JsonValue) -> Option<ConflictModel> {
    match (
        j.text_member("field"@),
        j.member("local_value"@),
        j.member("cloud_value"@),
        j.text_member("resolution"@),
    ) {
        (
            Some(field),
            Some(local_value),
            Some(cloud_value),
            Some(resolution),
        ) => Some(
            ConflictModel {
                field,
                local_value,
                cloud_value,
                resolution,
            },
        ),
        _ => None,
    }
}

/// A conflict can be written and read again, as every one can.
pub open spec fn conflict_fits(c: ConflictModel) -> bool {
    true
}

/// A list of records as a JSON array.
pub open spec fn conflicts_json(list: Seq<ConflictModel>) -> JsonValue {
    JsonValue::Array(Seq::new(list.len(), |i: int| conflict_json(list[i])))
}

/// The records that a JSON array holds, or `None` where the value is no
/// array of such records.
pub open spec fn conflicts_of_json(v: JsonValue) -> Option<Seq<ConflictModel>> {
    match v {
        JsonValue::Array(items) => if forall|i: int|
            0 <= i < items.len() ==> conflict_of_json(#[trigger] items[i]) is Some {
            Some(Seq::new(items.len(), |i: int| conflict_of_json(items[i])->0))
        } else {
            None
        },
        _ => None,
    }
}

/// The records that the member `key` holds.
pub open spec fn read_conflicts(j: JsonValue, key: Seq<char>) -> Option<Seq<ConflictModel>> {
    match j.member(key) {
        Some(v) => conflicts_of_json(v),
        None => None,
    }
}

/// Every record of the list can be written and read again.
pub open spec fn conflicts_fit(list: Seq<ConflictModel>) -> bool {
    forall|i: int| 0 <= i < list.len() ==> conflict_fits(#[trigger] list[i])
}

/// Writes a conflict as a JSON object.
pub fn encode_conflict(c: &ConflictInfo) -> (j: Json)
    ensures
        j@ == conflict_json(c@),
{
    let mut object = ObjectBuilder::new();
    object.put("field", Json::Text(c.field.clone()));
    object.put("local_value", c.local_value.clone());
    object.put("cloud_value", c.cloud_value.clone());
    object.put("resolution", Json::Text(c.resolution.clone()));
    object.build()
}

/// Reads a conflict from a JSON value.
pub fn decode_conflict(j: &Json) -> (r: Option<ConflictInfo>)
    ensures
        r.deep_view() == conflict_of_json(j@),
{
    let field = match j.get_str("field") {
        Some(v) => v.to_owned(),
        None => {
            return None;
        },
    };
    let local_value = match j.get("local_value") {
        Some(v) => v.clone(),
        None => {
            return None;
        },
    };
    let cloud_value = match j.get("cloud_value") {
        Some(v) => v.clone(),
        None => {
            return None;
        },
    };
    let resolution = match j.get_str("resolution") {
        Some(v) => v.to_owned(),
        None => {
            return None;
        },
    };
    Some(ConflictInfo { field, local_value, cloud_value, resolution })
}

/// Writes a list of records as a JSON array.
pub fn encode_conflicts(list: &Vec<ConflictInfo>) -> (j: Json)
    ensures
        j@ == conflicts_json(list.deep_view()),
{
    let mut items: Vec<Json> = Vec::new();
    let mut i: usize = 0;
    while i < list.len()
        invariant
            i <= list.len(),
            items.len() == i,
            forall|k: int| 0 <= k < i ==> items@[k]@ == conflict_json(list@[k]@),
        decreases list.len() - i,
    {
        items.push(encode_conflict(&list[i]));
        i += 1;
    }
    assert(items.deep_view() =~= Seq::new(
        list.deep_view().len(),
        |i: int| conflict_json(list.deep_view()[i]),
    ));
    Json::array(items)
}

/// Reads a list of records from a JSON array.
pub fn decode_conflicts(j: &Json) -> (r: Option<Vec<ConflictInfo>>)
    ensures
        r.deep_view() == conflicts_of_json(j@),
{
    let items = match j.as_array() {
        Some(items) => items,
        None => {
            return None;
        },
    };
    let ghost all = items.deep_view();
    let mut out: Vec<ConflictInfo> = Vec::new();
    let mut i: usize = 0;
    while i < items.len()
        invariant
            i <= items.len(),
            all == items.deep_view(),
            j@ == JsonValue::Array(all),
            out.len() == i,
            forall|k: int|
                0 <= k < i ==> conflict_of_json(#[trigger] all[k]) == Some(out@[k]@),
        decreases items.len() - i,
    {
        match decode_conflict(&items[i]) {
            Some(record) => {
                out.push(record);
            },
            None => {
                assert(conflict_of_json(all[i as int]) is None);
                return None;
            },
        }
        i += 1;
    }
    assert(out.deep_view() =~= Seq::new(
        all.len(),
        |i: int| conflict_of_json(all[i])->0,
    ));
    Some(out)
}

fn get_conflicts(j: &Json, key: &str) -> (r: Option<Vec<ConflictInfo>>)
    ensures
        r.deep_view() == read_conflicts(j@, key@),
{
    match j.get(key) {
        Some(v) => decode_conflicts(v),
        None => None,
    }
}

/// The names of the members of a conflict differ.
pub proof fn lemma_conflict_keys()
    ensures
        "field"@ != "local_value"@,
        "field"@ != "cloud_value"@,
        "field"@ != "resolution"@,
        "local_value"@ != "cloud_value"@,
        "local_value"@ != "resolution"@,
        "cloud_value"@ != "resolution"@,
{
    reveal_strlit("field");
    reveal_strlit("local_value");
    reveal_strlit("cloud_value");
    reveal_strlit("resolution");
    assert("field"@.len() == 5);
    assert("local_value"@.len() == 11);
    assert("cloud_value"@.len() == 11);
    assert("resolution"@.len() == 10);
    assert("local_value"@[0] != "cloud_value"@[0]);
}

/// A conflict that is written is read as it was.
pub proof fn lemma_conflict_round_trip(c: ConflictModel)
    requires
        conflict_fits(c),
    ensures
        conflict_of_json(conflict_json(c)) == Some(c),
{
    lemma_conflict_keys();
}

/// A list of records that is written is read as it was.
pub proof fn lemma_conflicts_round_trip(list: Seq<ConflictModel>)
    requires
        conflicts_fit(list),
    ensures
        conflicts_of_json(conflicts_json(list)) == Some(list),
{
    let items = Seq::new(list.len(), |i: int| conflict_json(list[i]));
    assert forall|i: int| 0 <= i < items.len() implies conflict_of_json(#[trigger] items[i])
        == Some(list[i]) by {
        lemma_conflict_round_trip(list[i]);
    }
    assert(Seq::new(items.len(), |i: int| conflict_of_json(items[i])->0) =~= list);
}

/// What a `ConflictInfo` holds can be written and read again.
pub proof fn lemma_conflict_view_fits(c: ConflictInfo)
    ensures
        conflict_fits(c@),
{
}

/// The members of a request for synchronization in a document.
pub open spec fn sync_request_members(request: SyncRequestModel) -> Map<Seq<char>, JsonValue> {
    let members = no_members().insert("agent_id"@, JsonValue::Text(request.agent_id));
    let members = members.insert("agent_file"@, agent_file_json(request.agent_file));
    let members = members.insert("local_version"@, JsonValue::Number(request.local_version as int));
    let members = members.insert("device_id"@, JsonValue::Text(request.device_id));
    members
}

/// A request for synchronization as a JSON object.
pub open spec fn sync_request_json(request: SyncRequestModel) -> JsonValue {
    JsonValue::Object(sync_request_members(request))
}

/// A request for synchronization that a JSON value holds, or `None` where the value is
/// no such record.
pub open spec fn sync_request_of_json(j: JsonValue) -> Option<SyncRequestModel> {
    match (
        j.text_member("agent_id"@),
        read_agent_file(j, "agent_file"@),
        j.int_member("local_version"@),
        j.text_member("device_id"@),
    ) {
        (
            Some(agent_id),
            Some(agent_file),
            Some(local_version),
            Some(device_id),
        ) => Some(
            SyncRequestModel {
                agent_id,
                agent_file,
                local_version,
                device_id,
            },
        ),
        _ => None,
    }
}

/// A request for synchronization can be written and read again: the records
/// in it can be written and read again.
pub open spec fn sync_request_fits(request: SyncRequestModel) -> bool {
    &&& agent_file_fits(request.agent_file)
}

/// Writes a request for synchronization as a JSON object.
pub fn encode_sync_request(request: &SyncRequest) -> (j: Json)
    ensures
        j@ == sync_request_json(request@),
{
    let mut object = ObjectBuilder::new();
    object.put("agent_id", Json::Text(request.agent_id.clone()));
    object.put("agent_file", encode_agent_file(&request.agent_file));
    object.put("local_version", Json::Int(request.local_version));
    object.put("device_id", Json::Text(request.device_id.clone()));
    object.build()
}

/// Reads a request for synchronization from a JSON value.
pub fn decode_sync_request(j: &Json) -> (r: Option<SyncRequest>)
    ensures
        r.deep_view() == sync_request_of_json(j@),
{
    let agent_id = match j.get_str("agent_id") {
        Some(v) => v.to_owned(),
        None => {
            return None;
        },
    };
    let agent_file = match get_agent_file(j, "agent_file") {
        Some(v) => v,
        None => {
            return None;
        },
    };
    let local_version = match j.get_i64("local_version") {
        Some(v) => v,
        None => {
            return None;
        },
    };
    let device_id = match j.get_str("device_id") {
        Some(v) => v.to_owned(),
        None => {
            return None;
        },
    };
    Some(SyncRequest { agent_id, agent_file, local_version, device_id })
}

/// The names of the members of a request for synchronization differ.
pub proof fn lemma_sync_request_keys()
    ensures
        "agent_id"@ != "agent_file"@,
        "agent_id"@ != "local_version"@,
        "agent_id"@ != "device_id"@,
        "agent_file"@ != "local_version"@,
        "agent_file"@ != "device_id"@,
        "local_version"@ != "device_id"@,
{
    reveal_strlit("agent_id");
    reveal_strlit("agent_file");
    reveal_strlit("local_version");
    reveal_strlit("device_id");
    assert("agent_id"@.len() == 8);
    assert("agent_file"@.len() == 10);
    assert("local_version"@.len() == 13);
    assert("device_id"@.len() == 9);
}

/// A request for synchronization that is written is read as it was.
pub proof fn lemma_sync_request_round_trip(request: SyncRequestModel)
    requires
        sync_request_fits(request),
    ensures
        sync_request_of_json(sync_request_json(request)) == Some(request),
{
    lemma_sync_request_keys();
    lemma_agent_file_round_trip(request.agent_file);
}

/// What a `SyncRequest` holds can be written and read again.
pub proof fn lemma_sync_request_view_fits(request: SyncRequest)
    ensures
        sync_request_fits(request@),
{
    lemma_agent_file_view_fits(request.agent_file);
}

/// The members of an answer to a synchronization in a document.
pub open spec fn sync_response_members(response: SyncResponseModel) -> Map<Seq<char>, JsonValue> {
    let members = no_members();
    let members = match response.agent_file {
        Some(v) => members.insert("agent_file"@, agent_file_json(v)),
        None => members,
    };
    let members = members.insert("cloud_version"@, JsonValue::Number(response.cloud_version as int));
    let members = members.insert("conflicts"@, conflicts_json(response.conflicts));
    let members = members.insert("status"@, JsonValue::Text(response.status));
    members
}

/// An answer to a synchronization as a JSON object.
pub open spec fn sync_response_json(response: SyncResponseModel) -> JsonValue {
    JsonValue::Object(sync_response_members(response))
}

/// An answer to a synchronization that a JSON value holds, or `None` where the value is
/// no such record.
pub open spec fn sync_response_of_json(j: JsonValue) -> Option<SyncResponseModel> {
    match (
        read_opt_agent_file(j, "agent_file"@),
        j.int_member("cloud_version"@),
        read_conflicts(j, "conflicts"@),
        j.text_member("status"@),
    ) {
        (
            Some(agent_file),
            Some(cloud_version),
            Some(conflicts),
            Some(status),
        ) => Some(
            SyncResponseModel {
                agent_file,
                cloud_version,
                conflicts,
                status,
            },
        ),
        _ => None,
    }
}

/// An answer to a synchronization can be written and read again: the
/// records in it can be written and read again.
pub open spec fn sync_response_fits(response: SyncResponseModel) -> bool {
    &&& (response.agent_file matches Some(v) ==> agent_file_fits(v))
    &&& conflicts_fit(response.conflicts)
}

/// Writes an answer to a synchronization as a JSON object.
pub fn encode_sync_response(response: &SyncResponse) -> (j: Json)
    ensures
        j@ == sync_response_json(response@),
{
    let mut object = ObjectBuilder::new();
    match &response.agent_file {
        Some(v) => {
            object.put("agent_file", encode_agent_file(v));
        },
        None => {},
    }
    object.put("cloud_version", Json::Int(response.cloud_version));
    object.put("conflicts", encode_conflicts(&response.conflicts));
    object.put("status", Json::Text(response.status.clone()));
    object.build()
}

/// Reads an answer to a synchronization from a JSON value.
pub fn decode_sync_response(j: &Json) -> (r: Option<SyncResponse>)
    ensures
        r.deep_view() == sync_response_of_json(j@),
{
    let agent_file = match get_opt_agent_file(j, "agent_file") {
        Some(v) => v,
        None => {
            return None;
        },
    };
    let cloud_version = match j.get_i64("cloud_version") {
        Some(v) => v,
        None => {
            return None;
        },
    };
    let conflicts = match get_conflicts(j, "conflicts") {
        Some(v) => v,
        None => {
            return None;
        },
    };
    let status = match j.get_str("status") {
        Some(v) => v.to_owned(),
        None => {
            return None;
        },
    };
    Some(SyncResponse { agent_file, cloud_version, conflicts, status })
}

/// The names of the members of an answer to a synchronization differ.
pub proof fn lemma_sync_response_keys()
    ensures
        "agent_file"@ != "cloud_version"@,
        "agent_file"@ != "conflicts"@,
        "agent_file"@ != "status"@,
        "cloud_version"@ != "conflicts"@,
        "cloud_version"@ != "status"@,
        "conflicts"@ != "status"@,
{
    reveal_strlit("agent_file");
    reveal_strlit("cloud_version");
    reveal_strlit("conflicts");
    reveal_strlit("status");
    assert("agent_file"@.len() == 10);
    assert("cloud_version"@.len() == 13);
    assert("conflicts"@.len() == 9);
    assert("status"@.len() == 6);
}

/// An answer to a synchronization that is written is read as it was.
pub proof fn lemma_sync_response_round_trip(response: SyncResponseModel)
    requires
        sync_response_fits(response),
    ensures
        sync_response_of_json(sync_response_json(response)) == Some(response),
{
    lemma_sync_response_keys();
    match response.agent_file {
        Some(v) => {
            lemma_agent_file_round_trip(v);
        },
        None => {},
    }
    lemma_conflicts_round_trip(response.conflicts);
}

/// What a `SyncResponse` holds can be written and read again.
pub proof fn lemma_sync_response_view_fits(response: SyncResponse)
    ensures
        sync_response_fits(response@),
{
    match response.agent_file {
        Some(v) => {
            lemma_agent_file_view_fits(v);
        },
        None => {},
    }
    assert forall|i: int| 0 <= i < response.conflicts.deep_view().len() implies conflict_fits(
        #[trigger] response.conflicts.deep_view()[i],
    ) by {
        lemma_conflict_view_fits(response.conflicts@[i]);
    }
}


} // verus!
