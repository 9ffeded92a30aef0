//! Sessions: one dialogue with the model, an ordered list of items.
//!
//! Roles and call kinds are stored and carried as plain numbers, with 0
//! reserved. The system prompt is no stored role.

use vstd::prelude::*;
use vstd::string::*;

use crate::number;
use crate::text;

verus! {

/// Message roles in a dialogue.
#[derive(Debug, Clone, Copy, PartialEq, Eq, Structural)]
pub enum MessageRole {
    User,
    Assistant,
    /// Injected context, such as the files of a persona.
    Context,
}

/// The stored number of a role.
pub open spec fn role_number(role: MessageRole) -> u8 {
    match role {
        MessageRole::User => 1,
        MessageRole::Assistant => 2,
        MessageRole::Context => 3,
    }
}

/// The role that a stored number stands for.
pub open spec fn role_of(n: u8) -> Option<MessageRole> {
    if n == 1 {
        Some(MessageRole::User)
    } else if n == 2 {
        Some(MessageRole::Assistant)
    } else if n == 3 {
        Some(MessageRole::Context)
    } else {
        None
    }
}

/// A stored number that stands for nothing.
#[derive(Debug, Clone, Copy, PartialEq, Eq, Structural)]
pub enum InvalidNumber {
    Role(u8),
    CallKind(u8),
}

impl InvalidNumber {
    /// The message of the error.
    pub fn message(&self) -> (r: String)
        ensures
            r@ == (match *self {
                InvalidNumber::Role(n) => "invalid message role: "@ + number::decimal(n as int),
                InvalidNumber::CallKind(n) => "invalid tool call kind: "@ + number::decimal(
                    n as int,
                ),
            }),
    {
        match self {
            InvalidNumber::Role(n) => "invalid message role: ".to_owned().concat(
                number::u64_text(*n as u64).as_str(),
            ),
            InvalidNumber::CallKind(n) => "invalid tool call kind: ".to_owned().concat(
                number::u64_text(*n as u64).as_str(),
            ),
        }
    }
}

impl MessageRole {
    /// The stored number of the role.
    pub fn number(&self) -> (r: u8)
        ensures
            r == role_number(*self),
    {
        match self {
            MessageRole::User => 1,
            MessageRole::Assistant => 2,
            MessageRole::Context => 3,
        }
    }
}

impl TryFrom<u8> for MessageRole {
    type Error = InvalidNumber;

    fn try_from(n: u8) -> (r: Result<MessageRole, InvalidNumber>) {
        if n == 1 {
            Ok(MessageRole::User)
        } else if n == 2 {
            Ok(MessageRole::Assistant)
        } else if n == 3 {
            Ok(MessageRole::Context)
        } else {
            Err(InvalidNumber::Role(n))
        }
    }
}

impl vstd::std_specs::convert::TryFromSpecImpl<u8> for MessageRole {
    open spec fn obeys_try_from_spec() -> bool {
        true
    }

    open spec fn try_from_spec(n: u8) -> Result<MessageRole, InvalidNumber> {
        match role_of(n) {
            Some(role) => Ok(role),
            None => Err(InvalidNumber::Role(n)),
        }
    }
}

/// The kind of a tool call.
#[derive(Debug, Clone, Copy, PartialEq, Eq, Structural)]
pub enum ToolCallKind {
    /// An ordinary function call: the session executes the matching tool.
    FunctionCall,
    /// A `web_search` call: the provider executes it, so the session records
    /// it and runs nothing.
    WebSearchCall,
}

/// The stored number of a call kind.
pub open spec fn kind_number(kind: ToolCallKind) -> u8 {
    match kind {
        ToolCallKind::FunctionCall => 1,
        ToolCallKind::WebSearchCall => 2,
    }
}

/// The call kind that a stored number stands for.
pub open spec fn kind_of(n: u8) -> Option<ToolCallKind> {
    if n == 1 {
        Some(ToolCallKind::FunctionCall)
    } else if n == 2 {
        Some(ToolCallKind::WebSearchCall)
    } else {
        None
    }
}

impl ToolCallKind {
    /// The stored number of the kind.
    pub fn number(&self) -> (r: u8)
        ensures
            r == kind_number(*self),
    {
        match self {
            ToolCallKind::FunctionCall => 1,
            ToolCallKind::WebSearchCall => 2,
        }
    }
}

impl TryFrom<u8> for ToolCallKind {
    type Error = InvalidNumber;

    fn try_from(n: u8) -> (r: Result<ToolCallKind, InvalidNumber>) {
        if n == 1 {
            Ok(ToolCallKind::FunctionCall)
        } else if n == 2 {
            Ok(ToolCallKind::WebSearchCall)
        } else {
            Err(InvalidNumber::CallKind(n))
        }
    }
}

impl vstd::std_specs::convert::TryFromSpecImpl<u8> for ToolCallKind {
    open spec fn obeys_try_from_spec() -> bool {
        true
    }

    open spec fn try_from_spec(n: u8) -> Result<ToolCallKind, InvalidNumber> {
        match kind_of(n) {
            Some(kind) => Ok(kind),
            None => Err(InvalidNumber::CallKind(n)),
        }
    }
}

/// A stored role or call kind reads back as what was stored, and 0 is
/// reserved: it stands for nothing.
pub proof fn law_stored_numbers_round_trip(role: MessageRole, kind: ToolCallKind, n: u8)
    ensures
        role_of(role_number(role)) == Some(role),
        kind_of(kind_number(kind)) == Some(kind),
        role_of(n) matches Some(r) ==> role_number(r) == n,
        kind_of(n) matches Some(k) ==> kind_number(k) == n,
        role_of(0) is None,
        kind_of(0) is None,
{
}

/// A tool call requested by the model. Function calls carry a name and
/// arguments; a `web_search` call carries its query as arguments where the
/// provider returns one.
#[derive(Debug, PartialEq)]
pub struct ToolCall {
    pub id: String,
    pub kind: ToolCallKind,
    pub name: Option<String>,
    pub arguments: Option<String>,
}

/// The view of a [`ToolCall`].
pub struct CallView {
    pub id: Seq<char>,
    pub kind: ToolCallKind,
    pub name: Option<Seq<char>>,
    pub arguments: Option<Seq<char>>,
}

impl View for ToolCall {
    type V = CallView;

    open spec fn view(&self) -> CallView {
        CallView {
            id: self.id@,
            kind: self.kind,
            name: text::opt_text(self.name),
            arguments: text::opt_text(self.arguments),
        }
    }
}

/// Copies an optional string.
pub fn copy_opt(o: &Option<String>) -> (r: Option<String>)
    ensures
        r == *o,
{
    match o {
        Some(s) => Some(s.clone()),
        None => None,
    }
}

impl Clone for ToolCall {
    fn clone(&self) -> (r: Self)
        ensures
            r == *self,
    {
        ToolCall {
            id: self.id.clone(),
            kind: self.kind,
            name: copy_opt(&self.name),
            arguments: copy_opt(&self.arguments),
        }
    }
}

/// One unit of a dialogue.
#[derive(Debug, PartialEq)]
pub enum SessionItem {
    Message { role: MessageRole, content: String },
    /// Reasoning of the model, kept for the record.
    Reasoning { content: String },
    ToolCall(ToolCall),
    ToolCallOutput { call_id: String, output: String },
    /// The trace of a turn that was held open.
    Wait { arguments: String },
}

/// The view of a [`SessionItem`].
pub enum ItemView {
    Message { role: MessageRole, content: Seq<char> },
    Reasoning { content: Seq<char> },
    ToolCall(CallView),
    ToolCallOutput { call_id: Seq<char>, output: Seq<char> },
    Wait { arguments: Seq<char> },
}

impl View for SessionItem {
    type V = ItemView;

    open spec fn view(&self) -> ItemView {
        match *self {
            SessionItem::Message { role, content } => ItemView::Message { role, content: content@ },
            SessionItem::Reasoning { content } => ItemView::Reasoning { content: content@ },
            SessionItem::ToolCall(call) => ItemView::ToolCall(call@),
            SessionItem::ToolCallOutput { call_id, output } => ItemView::ToolCallOutput {
                call_id: call_id@,
                output: output@,
            },
            SessionItem::Wait { arguments } => ItemView::Wait { arguments: arguments@ },
        }
    }
}

impl Clone for SessionItem {
    fn clone(&self) -> (r: Self)
        ensures
            r == *self,
    {
        match self {
            SessionItem::Message { role, content } => SessionItem::Message {
                role: *role,
                content: content.clone(),
            },
            SessionItem::Reasoning { content } => SessionItem::Reasoning {
                content: content.clone(),
            },
            SessionItem::ToolCall(call) => SessionItem::ToolCall(call.clone()),
            SessionItem::ToolCallOutput { call_id, output } => SessionItem::ToolCallOutput {
                call_id: call_id.clone(),
                output: output.clone(),
            },
            SessionItem::Wait { arguments } => SessionItem::Wait { arguments: arguments.clone() },
        }
    }
}

/// The views of a list of items.
pub open spec fn item_views(items: Seq<SessionItem>) -> Seq<ItemView> {
    items.map_values(|i: SessionItem| i@)
}

/// The views of a list of calls.
pub open spec fn call_views(calls: Seq<ToolCall>) -> Seq<CallView> {
    calls.map_values(|c: ToolCall| c@)
}

/// Roles and call kinds are stored under fixed numbers, so that a store reads
/// back under every version of the program.
pub proof fn law_stored_numbers_are_fixed(role: MessageRole, kind: ToolCallKind)
    ensures
        role_number(role) == 1 <==> role is User,
        role_number(role) == 2 <==> role is Assistant,
        role_number(role) == 3 <==> role is Context,
        kind_number(kind) == 1 <==> kind is FunctionCall,
        kind_number(kind) == 2 <==> kind is WebSearchCall,
{
}

/// The view of a call shows every part of it, character for character.
pub proof fn law_call_views_show_the_call(call: ToolCall, calls: Seq<ToolCall>, i: int)
    ensures
        call@.id == call.id@,
        call@.kind == call.kind,
        call.name matches Some(name) ==> call@.name == Some(name@),
        call.name is None ==> call@.name is None,
        call.arguments matches Some(arguments) ==> call@.arguments == Some(arguments@),
        call.arguments is None ==> call@.arguments is None,
        call_views(calls).len() == calls.len(),
        0 <= i < calls.len() ==> call_views(calls)[i] == calls[i]@,
{
}

/// The view of an item shows what the item holds, character for character, and
/// the view of a list shows each item in its place.
pub proof fn law_item_views_show_the_item(item: SessionItem, items: Seq<SessionItem>, i: int)
    ensures
        match item {
            SessionItem::Message { role, content } => item@ == (ItemView::Message {
                role,
                content: content@,
            }),
            SessionItem::Reasoning { content } => item@ == (ItemView::Reasoning {
                content: content@,
            }),
            SessionItem::ToolCall(call) => item@ == ItemView::ToolCall(call@),
            SessionItem::ToolCallOutput { call_id, output } => item@
                == (ItemView::ToolCallOutput { call_id: call_id@, output: output@ }),
            SessionItem::Wait { arguments } => item@ == (ItemView::Wait {
                arguments: arguments@,
            }),
        },
        item_views(items).len() == items.len(),
        0 <= i < items.len() ==> item_views(items)[i] == items[i]@,
{
}

/// A stored number is read as the role or the kind that it stands for; every
/// other number is an error that holds it.
pub proof fn law_numbers_are_read_or_refused(n: u8)
    ensures
        role_of(1) == Some(MessageRole::User),
        role_of(2) == Some(MessageRole::Assistant),
        role_of(3) == Some(MessageRole::Context),
        n == 0 || n > 3 ==> role_of(n) is None,
        kind_of(1) == Some(ToolCallKind::FunctionCall),
        kind_of(2) == Some(ToolCallKind::WebSearchCall),
        n == 0 || n > 2 ==> kind_of(n) is None,
        <MessageRole as vstd::std_specs::convert::TryFromSpec<u8>>::try_from_spec(n) == (
        match role_of(n) {
            Some(role) => Ok::<MessageRole, InvalidNumber>(role),
            None => Err::<MessageRole, InvalidNumber>(InvalidNumber::Role(n)),
        }),
        <ToolCallKind as vstd::std_specs::convert::TryFromSpec<u8>>::try_from_spec(n) == (
        match kind_of(n) {
            Some(kind) => Ok::<ToolCallKind, InvalidNumber>(kind),
            None => Err::<ToolCallKind, InvalidNumber>(InvalidNumber::CallKind(n)),
        }),
{
}

} // verus!
