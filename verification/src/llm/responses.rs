//! The Responses API: what a request holds and what an answer says.

use vstd::prelude::*;
use vstd::string::*;

use crate::domain::llm::{DefView, ToolDef};
use crate::domain::llm;
use crate::domain::session;
use crate::domain::session::{MessageRole, SessionItem, ToolCall, ToolCallKind};
use crate::domain::tool::ToolParams;
use crate::text;

verus! {

// Tools ---------------------------------------------------------------------

/// A tool of a request: a function, or the `web_search` that the provider
/// executes itself.
#[derive(Debug)]
pub enum ResponsesTool {
    Function { name: String, description: String, parameters: ToolParams },
    WebSearch,
}

/// The view of a [`ResponsesTool`].
pub enum ResponsesToolView {
    Function(DefView),
    WebSearch,
}

impl View for ResponsesTool {
    type V = ResponsesToolView;

    open spec fn view(&self) -> ResponsesToolView {
        match *self {
            ResponsesTool::Function { name, description, parameters } =>
                ResponsesToolView::Function(
                DefView { name: name@, description: description@, parameters: parameters@ },
            ),
            ResponsesTool::WebSearch => ResponsesToolView::WebSearch,
        }
    }
}

/// The tools of a request: one function for each definition, in order, and
/// `web_search` last where it is switched on.
pub open spec fn request_tools(defs: Seq<DefView>, web_search: bool) -> Seq<ResponsesToolView> {
    let functions = defs.map_values(|d: DefView| ResponsesToolView::Function(d));
    if web_search {
        functions.push(ResponsesToolView::WebSearch)
    } else {
        functions
    }
}

/// The views of a list of request tools.
pub open spec fn responses_tool_views(tools: Seq<ResponsesTool>) -> Seq<ResponsesToolView> {
    tools.map_values(|t: ResponsesTool| t@)
}

/// The tools of a request.
pub fn build_responses_tools(tools: &Vec<ToolDef>, web_search: bool) -> (r: Vec<ResponsesTool>)
    ensures
        responses_tool_views(r@) == request_tools(llm::def_views(tools@), web_search),
{
    let mut r: Vec<ResponsesTool> = Vec::new();
    let mut i: usize = 0;
    while i < tools.len()
        invariant
            i <= tools@.len(),
            r@.len() == i,
            forall|j: int|
                0 <= j < i ==> (#[trigger] r@[j])@ == ResponsesToolView::Function(tools@[j]@),
        decreases tools@.len() - i,
    {
        let t = &tools[i];
        r.push(
            ResponsesTool::Function {
                name: t.name.clone(),
                description: t.description.clone(),
                parameters: t.parameters.clone(),
            },
        );
        i = i + 1;
    }
    if web_search {
        r.push(ResponsesTool::WebSearch);
    }
    assert(responses_tool_views(r@) =~= request_tools(llm::def_views(tools@), web_search));
    r
}

// Input -----------------------------------------------------------------------

/// A part of a message.
#[derive(Debug, PartialEq)]
pub enum ResponsesContentPart {
    InputText { text: String },
    OutputText { text: String },
}

/// An input item of a request.
#[derive(Debug, PartialEq)]
pub enum ResponsesInputItem {
    Message { role: String, content: Vec<ResponsesContentPart> },
    FunctionCall { call_id: String, name: String, arguments: String },
    FunctionCallOutput { call_id: String, output: String },
}

/// The view of a [`ResponsesContentPart`].
pub enum PartView {
    InputText(Seq<char>),
    OutputText(Seq<char>),
}

/// The view of a [`ResponsesInputItem`].
pub enum InputView {
    Message { role: Seq<char>, content: Seq<PartView> },
    FunctionCall { call_id: Seq<char>, name: Seq<char>, arguments: Seq<char> },
    FunctionCallOutput { call_id: Seq<char>, output: Seq<char> },
}

impl View for ResponsesContentPart {
    type V = PartView;

    open spec fn view(&self) -> PartView {
        match *self {
            ResponsesContentPart::InputText { text } => PartView::InputText(text@),
            ResponsesContentPart::OutputText { text } => PartView::OutputText(text@),
        }
    }
}

impl View for ResponsesInputItem {
    type V = InputView;

    open spec fn view(&self) -> InputView {
        match *self {
            ResponsesInputItem::Message { role, content } => InputView::Message {
                role: role@,
                content: content@.map_values(|p: ResponsesContentPart| p@),
            },
            ResponsesInputItem::FunctionCall { call_id, name, arguments } =>
                InputView::FunctionCall {
                call_id: call_id@,
                name: name@,
                arguments: arguments@,
            },
            ResponsesInputItem::FunctionCallOutput { call_id, output } =>
                InputView::FunctionCallOutput { call_id: call_id@, output: output@ },
        }
    }
}

/// The views of a list of input items.
pub open spec fn input_views(items: Seq<ResponsesInputItem>) -> Seq<InputView> {
    items.map_values(|i: ResponsesInputItem| i@)
}

/// The provider's name of a stored role: injected context speaks as `system`.
pub open spec fn role_text(role: MessageRole) -> Seq<char> {
    match role {
        MessageRole::User => "user"@,
        MessageRole::Assistant => "assistant"@,
        MessageRole::Context => "system"@,
    }
}

/// The provider's name of a stored role.
pub fn wire_role(role: MessageRole) -> (r: &'static str)
    ensures
        r@ == role_text(role),
{
    match role {
        MessageRole::User => "user",
        MessageRole::Assistant => "assistant",
        MessageRole::Context => "system",
    }
}

/// A message of the input: what the model said is output text, all else input
/// text.
pub open spec fn message_input(role: MessageRole, content: Seq<char>) -> InputView {
    InputView::Message {
        role: role_text(role),
        content: seq![
            if role is Assistant {
                PartView::OutputText(content)
            } else {
                PartView::InputText(content)
            },
        ],
    }
}

/// An optional text, empty where there is none.
pub open spec fn text_or_empty(o: Option<Seq<char>>) -> Seq<char> {
    match o {
        Some(s) => s,
        None => Seq::empty(),
    }
}

/// What a session item becomes in the input. Reasoning, calls that the
/// provider executed itself and wait markers are never sent.
pub open spec fn input_of(item: session::ItemView) -> Option<InputView> {
    match item {
        session::ItemView::Message { role, content } => Some(message_input(role, content)),
        session::ItemView::Reasoning { content } => None,
        session::ItemView::ToolCall(call) => match call.kind {
            ToolCallKind::FunctionCall => Some(
                InputView::FunctionCall {
                    call_id: call.id,
                    name: text_or_empty(call.name),
                    arguments: text_or_empty(call.arguments),
                },
            ),
            ToolCallKind::WebSearchCall => None,
        },
        session::ItemView::ToolCallOutput { call_id, output } => Some(
            InputView::FunctionCallOutput { call_id, output },
        ),
        session::ItemView::Wait { arguments } => None,
    }
}

/// The input items of a dialogue, in the order of its items.
pub open spec fn dialogue_input(items: Seq<session::ItemView>) -> Seq<InputView>
    decreases items.len(),
{
    if items.len() == 0 {
        Seq::empty()
    } else {
        let before = dialogue_input(items.drop_last());
        match input_of(items.last()) {
            Some(i) => before.push(i),
            None => before,
        }
    }
}

fn opt_or_empty(o: &Option<String>) -> (r: String)
    ensures
        r@ == text_or_empty(text::opt_text(*o)),
{
    match o {
        Some(s) => s.clone(),
        None => String::new(),
    }
}

/// What one session item becomes in the input.
pub fn to_input_item(item: &SessionItem) -> (r: Option<ResponsesInputItem>)
    ensures
        match r {
            Some(i) => input_of(item@) == Some(i@),
            None => input_of(item@) is None,
        },
{
    match item {
        SessionItem::Message { role, content } => {
            let part = match role {
                MessageRole::Assistant => ResponsesContentPart::OutputText {
                    text: content.clone(),
                },
                _ => ResponsesContentPart::InputText { text: content.clone() },
            };
            let ghost shown = part@;
            let mut parts: Vec<ResponsesContentPart> = Vec::new();
            parts.push(part);
            assert(parts@.map_values(|p: ResponsesContentPart| p@) =~= seq![shown]);
            Some(
                ResponsesInputItem::Message { role: wire_role(*role).to_owned(), content: parts },
            )
        },
        SessionItem::ToolCall(call) => match call.kind {
            ToolCallKind::FunctionCall => Some(
                ResponsesInputItem::FunctionCall {
                    call_id: call.id.clone(),
                    name: opt_or_empty(&call.name),
                    arguments: opt_or_empty(&call.arguments),
                },
            ),
            ToolCallKind::WebSearchCall => None,
        },
        SessionItem::ToolCallOutput { call_id, output } => Some(
            ResponsesInputItem::FunctionCallOutput {
                call_id: call_id.clone(),
                output: output.clone(),
            },
        ),
        SessionItem::Reasoning { .. } => None,
        SessionItem::Wait { .. } => None,
    }
}

/// The input items of a dialogue.
pub fn to_responses_input(items: &Vec<SessionItem>) -> (r: Vec<ResponsesInputItem>)
    ensures
        input_views(r@) == dialogue_input(session::item_views(items@)),
{
    let mut r: Vec<ResponsesInputItem> = Vec::new();
    let mut i: usize = 0;
    let ghost views = session::item_views(items@);
    assert(input_views(r@) =~= dialogue_input(views.take(0)));
    while i < items.len()
        invariant
            i <= items@.len(),
            views == session::item_views(items@),
            input_views(r@) == dialogue_input(views.take(i as int)),
        decreases items@.len() - i,
    {
        let ghost before = input_views(r@);
        proof {
            let t = views.take(i + 1);
            assert(t.drop_last() =~= views.take(i as int));
            assert(t.last() == items@[i as int]@);
        }
        match to_input_item(&items[i]) {
            Some(item) => {
                r.push(item);
                assert(input_views(r@) =~= before.push(item@));
            },
            None => {},
        }
        i = i + 1;
    }
    assert(views.take(i as int) =~= views);
    r
}

/// A longer dialogue is sent as the input of its beginning, unchanged,
/// followed by the input of the rest: the sent prefix stays identical from
/// turn to turn.
pub proof fn law_input_extends(items: Seq<session::ItemView>, more: Seq<session::ItemView>)
    ensures
        dialogue_input(items + more) == dialogue_input(items) + dialogue_input(more),
    decreases more.len(),
{
    if more.len() == 0 {
        assert(items + more =~= items);
        assert(dialogue_input(items) + dialogue_input(more) =~= dialogue_input(items));
    } else {
        law_input_extends(items, more.drop_last());
        assert((items + more).drop_last() =~= items + more.drop_last());
        let tail = dialogue_input(more.drop_last());
        match input_of(more.last()) {
            Some(i) => {
                assert((dialogue_input(items) + tail).push(i) =~= dialogue_input(items)
                    + tail.push(i));
            },
            None => {},
        }
    }
}

/// A function call that is directly followed by its output in the dialogue is
/// directly followed by it in the input, under the same call id.
pub proof fn law_input_keeps_call_and_output_together(
    before: Seq<session::ItemView>,
    call: session::CallView,
    output: Seq<char>,
    after: Seq<session::ItemView>,
)
    requires
        call.kind is FunctionCall,
    ensures
        ({
            let items = before.push(session::ItemView::ToolCall(call)).push(
                session::ItemView::ToolCallOutput { call_id: call.id, output },
            ) + after;
            let k = dialogue_input(before).len() as int;
            let input = dialogue_input(items);
            &&& k + 1 < input.len()
            &&& input[k] == InputView::FunctionCall {
                call_id: call.id,
                name: text_or_empty(call.name),
                arguments: text_or_empty(call.arguments),
            }
            &&& input[k + 1] == InputView::FunctionCallOutput { call_id: call.id, output }
        }),
{
    let one = before.push(session::ItemView::ToolCall(call));
    let two = one.push(session::ItemView::ToolCallOutput { call_id: call.id, output });
    assert(one.drop_last() =~= before);
    assert(two.drop_last() =~= one);
    let sent = dialogue_input(before);
    assert(dialogue_input(one) == sent.push(
        InputView::FunctionCall {
            call_id: call.id,
            name: text_or_empty(call.name),
            arguments: text_or_empty(call.arguments),
        },
    ));
    assert(dialogue_input(two) == dialogue_input(one).push(
        InputView::FunctionCallOutput { call_id: call.id, output },
    ));
    law_input_extends(two, after);
}

// Requests ----------------------------------------------------------------------

/// The instructions of a request: the system prompt, where it is not blank.
pub open spec fn instructions(system: Seq<char>) -> Option<Seq<char>> {
    if text::trim(system).len() == 0 {
        None
    } else {
        Some(system)
    }
}

/// The instructions of a request. Stored items never contribute to them.
pub fn build_instructions(system: &str) -> (r: Option<String>)
    ensures
        text::opt_text(r) == instructions(system@),
{
    if text::is_blank(system) {
        None
    } else {
        Some(system.to_owned())
    }
}

/// A request to the model.
#[derive(Debug)]
pub struct ResponsesRequest {
    pub model: String,
    pub instructions: Option<String>,
    pub input: Vec<ResponsesInputItem>,
    pub tools: Option<Vec<ResponsesTool>>,
}

/// Where and how the model is reached.
#[derive(Debug)]
pub struct OpenAiLlm {
    pub api_url: String,
    pub api_key: String,
    pub model: String,
    /// Attach the provider's `web_search` to every request.
    pub web_search: bool,
}

impl OpenAiLlm {
    pub fn new(api_url: &str, api_key: &str, model: &str, web_search: bool) -> (r: Self)
        ensures
            r.api_url@ == api_url@,
            r.api_key@ == api_key@,
            r.model@ == model@,
            r.web_search == web_search,
    {
        OpenAiLlm {
            api_url: api_url.to_owned(),
            api_key: api_key.to_owned(),
            model: model.to_owned(),
            web_search,
        }
    }

    /// The address that requests go to.
    pub fn endpoint(&self) -> (r: String)
        ensures
            r@ == self.api_url@ + "/responses"@,
    {
        self.api_url.clone().concat("/responses")
    }

    /// The value of the `Authorization` header.
    pub fn authorization(&self) -> (r: String)
        ensures
            r@ == "Bearer "@ + self.api_key@,
    {
        "Bearer ".to_owned().concat(self.api_key.as_str())
    }

    /// The request for the next answer in a dialogue.
    pub fn request(&self, system: &str, items: &Vec<SessionItem>, tools: &Vec<ToolDef>) -> (r:
        ResponsesRequest)
        ensures
            r.model@ == self.model@,
            text::opt_text(r.instructions) == instructions(system@),
            input_views(r.input@) == dialogue_input(session::item_views(items@)),
            match r.tools {
                None => request_tools(llm::def_views(tools@), self.web_search).len() == 0,
                Some(v) => v@.len() > 0 && responses_tool_views(v@) == request_tools(
                    llm::def_views(tools@),
                    self.web_search,
                ),
            },
    {
        let api_tools = build_responses_tools(tools, self.web_search);
        assert(api_tools@.len() == responses_tool_views(api_tools@).len());
        ResponsesRequest {
            model: self.model.clone(),
            instructions: build_instructions(system),
            input: to_responses_input(items),
            tools: if api_tools.len() == 0 {
                None
            } else {
                Some(api_tools)
            },
        }
    }
}

/// The error of an answer that is no success.
pub fn api_error(status: &str, body: &str) -> (r: String)
    ensures
        r@ == "LLM API error ("@ + status@ + "): "@ + body@,
{
    "LLM API error (".to_owned().concat(status).concat("): ").concat(body)
}

// Answers -------------------------------------------------------------------------

/// A part of a message in an answer.
#[derive(Debug)]
pub enum ResponsesOutputPart {
    OutputText { text: String },
    InputText { text: String },
    Unknown,
}

/// An item of an answer.
#[derive(Debug)]
pub enum ResponsesOutputItem {
    Message { content: Vec<ResponsesOutputPart> },
    FunctionCall {
        id: Option<String>,
        call_id: Option<String>,
        name: String,
        arguments: String,
    },
    Unknown,
}

/// An answer of the API.
#[derive(Debug)]
pub struct ResponsesResponse {
    pub id: Option<String>,
    pub output: Vec<ResponsesOutputItem>,
    /// The provider's own concatenation of the text.
    pub output_text: Option<String>,
}

/// The model's answer to one request.
#[derive(Debug)]
pub struct LlmResponse {
    /// The id of this answer, where the provider returns one.
    pub id: Option<String>,
    pub content: Option<String>,
    pub reasoning: Option<String>,
    pub tool_calls: Vec<ToolCall>,
}

/// The view of an [`LlmResponse`].
pub struct ResponseView {
    pub id: Option<Seq<char>>,
    pub content: Option<Seq<char>>,
    pub reasoning: Option<Seq<char>>,
    pub tool_calls: Seq<session::CallView>,
}

impl View for LlmResponse {
    type V = ResponseView;

    open spec fn view(&self) -> ResponseView {
        ResponseView {
            id: text::opt_text(self.id),
            content: text::opt_text(self.content),
            reasoning: text::opt_text(self.reasoning),
            tool_calls: session::call_views(self.tool_calls@),
        }
    }
}

/// The text of one part.
pub open spec fn part_text(part: ResponsesOutputPart) -> Seq<char> {
    match part {
        ResponsesOutputPart::OutputText { text } => text@,
        ResponsesOutputPart::InputText { text } => text@,
        ResponsesOutputPart::Unknown => Seq::empty(),
    }
}

/// The text of a list of parts.
pub open spec fn parts_text(parts: Seq<ResponsesOutputPart>) -> Seq<char>
    decreases parts.len(),
{
    if parts.len() == 0 {
        Seq::empty()
    } else {
        parts_text(parts.drop_last()) + part_text(parts.last())
    }
}

/// The text of the messages of an answer.
pub open spec fn output_text(output: Seq<ResponsesOutputItem>) -> Seq<char>
    decreases output.len(),
{
    if output.len() == 0 {
        Seq::empty()
    } else {
        let before = output_text(output.drop_last());
        match output.last() {
            ResponsesOutputItem::Message { content } => before + parts_text(content@),
            _ => before,
        }
    }
}

/// The function call that an output item asks for: its id is the call id,
/// else the item's own id; an item with neither asks for nothing.
pub open spec fn call_of(item: ResponsesOutputItem) -> Option<session::CallView> {
    match item {
        ResponsesOutputItem::FunctionCall { id, call_id, name, arguments } => {
            let chosen = if call_id is Some {
                text::opt_text(call_id)
            } else {
                text::opt_text(id)
            };
            match chosen {
                Some(c) => Some(
                    session::CallView {
                        id: c,
                        kind: ToolCallKind::FunctionCall,
                        name: Some(name@),
                        arguments: Some(arguments@),
                    },
                ),
                None => None,
            }
        },
        _ => None,
    }
}

/// The function calls of an answer.
pub open spec fn output_calls(output: Seq<ResponsesOutputItem>) -> Seq<session::CallView>
    decreases output.len(),
{
    if output.len() == 0 {
        Seq::empty()
    } else {
        let before = output_calls(output.drop_last());
        match call_of(output.last()) {
            Some(c) => before.push(c),
            None => before,
        }
    }
}

/// The content of an answer: the text of its messages, else the provider's
/// own text; an empty text is none.
pub open spec fn answer_content(output: Seq<char>, provided: Option<Seq<char>>) -> Option<
    Seq<char>,
> {
    if output.len() > 0 {
        Some(output)
    } else {
        match provided {
            Some(t) if t.len() > 0 => Some(t),
            _ => None,
        }
    }
}

fn append_parts(content: &mut String, parts: &Vec<ResponsesOutputPart>)
    ensures
        final(content)@ == old(content)@ + parts_text(parts@),
{
    let mut i: usize = 0;
    let ghost start = content@;
    assert(start + parts_text(parts@.take(0)) =~= start);
    while i < parts.len()
        invariant
            i <= parts@.len(),
            content@ == start + parts_text(parts@.take(i as int)),
        decreases parts@.len() - i,
    {
        proof {
            let t = parts@.take(i + 1);
            assert(t.drop_last() =~= parts@.take(i as int));
            assert(t.last() == parts@[i as int]);
            assert(start + parts_text(t) =~= start + parts_text(parts@.take(i as int))
                + part_text(t.last()));
        }
        match &parts[i] {
            ResponsesOutputPart::OutputText { text } => content.append(text.as_str()),
            ResponsesOutputPart::InputText { text } => content.append(text.as_str()),
            ResponsesOutputPart::Unknown => {},
        }
        i = i + 1;
        assert(content@ =~= start + parts_text(parts@.take(i as int)));
    }
    assert(parts@.take(i as int) =~= parts@);
}

fn requested_call(item: &ResponsesOutputItem) -> (r: Option<ToolCall>)
    ensures
        match r {
            Some(c) => call_of(*item) == Some(c@),
            None => call_of(*item) is None,
        },
{
    match item {
        ResponsesOutputItem::FunctionCall { id, call_id, name, arguments } => {
            let chosen = if call_id.is_some() {
                session::copy_opt(call_id)
            } else {
                session::copy_opt(id)
            };
            match chosen {
                Some(c) => Some(
                    ToolCall {
                        id: c,
                        kind: ToolCallKind::FunctionCall,
                        name: Some(name.clone()),
                        arguments: Some(arguments.clone()),
                    },
                ),
                None => None,
            }
        },
        _ => None,
    }
}

/// What an answer says.
pub fn read_response(parsed: ResponsesResponse) -> (r: LlmResponse)
    ensures
        r@ == (ResponseView {
            id: text::opt_text(parsed.id),
            content: answer_content(
                output_text(parsed.output@),
                text::opt_text(parsed.output_text),
            ),
            reasoning: None,
            tool_calls: output_calls(parsed.output@),
        }),
{
    let output = &parsed.output;
    let mut content: String = String::new();
    let mut tool_calls: Vec<ToolCall> = Vec::new();
    let mut i: usize = 0;
    assert(content@ =~= output_text(output@.take(0)));
    assert(session::call_views(tool_calls@) =~= output_calls(output@.take(0)));
    while i < output.len()
        invariant
            i <= output@.len(),
            content@ == output_text(output@.take(i as int)),
            session::call_views(tool_calls@) == output_calls(output@.take(i as int)),
        decreases output@.len() - i,
    {
        proof {
            let t = output@.take(i + 1);
            assert(t.drop_last() =~= output@.take(i as int));
            assert(t.last() == output@[i as int]);
        }
        match &output[i] {
            ResponsesOutputItem::Message { content: parts } => {
                append_parts(&mut content, parts);
            },
            _ => {},
        }
        let ghost before = session::call_views(tool_calls@);
        match requested_call(&output[i]) {
            Some(c) => {
                tool_calls.push(c);
                assert(session::call_views(tool_calls@) =~= before.push(c@));
            },
            None => {},
        }
        i = i + 1;
    }
    assert(output@.take(i as int) =~= output@);
    let chosen = if text::is_empty(content.as_str()) {
        match parsed.output_text {
            Some(t) => if text::is_empty(t.as_str()) {
                None
            } else {
                Some(t)
            },
            None => None,
        }
    } else {
        Some(content)
    };
    LlmResponse { id: parsed.id, content: chosen, reasoning: None, tool_calls }
}

// What requests and answers carry ------------------------------------------------------

/// Every function call of an answer that has a call id or an id becomes one
/// tool call, in the order of the answer: its id is the call id, else the id,
/// and its name and its arguments are the item's own, character for character.
/// No other item becomes a call.
pub proof fn law_calls_carry_the_models_words(
    before: Seq<ResponsesOutputItem>,
    item: ResponsesOutputItem,
    after: Seq<ResponsesOutputItem>,
)
    ensures
        output_calls(Seq::empty()) == Seq::<session::CallView>::empty(),
        ({
            let k = output_calls(before).len() as int;
            let calls = output_calls(before.push(item) + after);
            let asks = item matches ResponsesOutputItem::FunctionCall {
                id,
                call_id,
                name,
                arguments,
            } && (call_id is Some || id is Some);
            &&& calls.take(k) == output_calls(before)
            &&& asks ==> {
                &&& calls.len() == k + 1 + output_calls(after).len()
                &&& calls.skip(k + 1) == output_calls(after)
                &&& calls[k].kind is FunctionCall
                &&& item->FunctionCall_call_id matches Some(id) ==> calls[k].id == id@
                &&& item->FunctionCall_call_id is None ==> calls[k].id
                    == item->FunctionCall_id->Some_0@
                &&& calls[k].name == Some(item->FunctionCall_name@)
                &&& calls[k].arguments == Some(item->FunctionCall_arguments@)
            }
            &&& !asks ==> calls.skip(k) == output_calls(after)
        }),
{
    lemma_calls_extend(before.push(item), after);
    assert(before.push(item).drop_last() =~= before);
    let k = output_calls(before).len() as int;
    let calls = output_calls(before.push(item) + after);
    let head = output_calls(before.push(item));
    assert(calls.take(k) =~= output_calls(before));
    assert(calls.skip(head.len() as int) =~= output_calls(after));
}

proof fn lemma_calls_extend(first: Seq<ResponsesOutputItem>, second: Seq<ResponsesOutputItem>)
    ensures
        output_calls(first + second) == output_calls(first) + output_calls(second),
    decreases second.len(),
{
    if second.len() == 0 {
        assert(first + second =~= first);
        assert(output_calls(first) + output_calls(second) =~= output_calls(first));
    } else {
        lemma_calls_extend(first, second.drop_last());
        assert((first + second).drop_last() =~= first + second.drop_last());
        assert((first + second).last() == second.last());
        assert(output_calls(first + second) =~= output_calls(first) + output_calls(second));
    }
}

/// The text of an answer is the text of its messages, one behind another: each
/// part adds the whole of its text, whichever of the two kinds it is; parts of
/// an unknown kind and items that are no message add nothing.
pub proof fn law_answers_keep_the_models_text(
    first: Seq<ResponsesOutputItem>,
    second: Seq<ResponsesOutputItem>,
    item: ResponsesOutputItem,
    parts: Seq<ResponsesOutputPart>,
    more: Seq<ResponsesOutputPart>,
    part: ResponsesOutputPart,
)
    ensures
        output_text(Seq::empty()) == Seq::<char>::empty(),
        output_text(first + second) == output_text(first) + output_text(second),
        match item {
            ResponsesOutputItem::Message { content } => output_text(seq![item]) == parts_text(
                content@,
            ),
            _ => output_text(seq![item]).len() == 0,
        },
        parts_text(Seq::empty()) == Seq::<char>::empty(),
        parts_text(parts + more) == parts_text(parts) + parts_text(more),
        match part {
            ResponsesOutputPart::OutputText { text } => parts_text(seq![part]) == text@,
            ResponsesOutputPart::InputText { text } => parts_text(seq![part]) == text@,
            ResponsesOutputPart::Unknown => parts_text(seq![part]).len() == 0,
        },
{
    lemma_output_text_extends(first, second);
    lemma_parts_text_extends(parts, more);
    reveal_with_fuel(output_text, 2);
    reveal_with_fuel(parts_text, 2);
    assert(seq![item].drop_last() =~= Seq::empty());
    assert(seq![part].drop_last() =~= Seq::empty());
    match item {
        ResponsesOutputItem::Message { content } => {
            assert(output_text(seq![item]) =~= parts_text(content@));
        },
        _ => {},
    }
    assert(parts_text(seq![part]) =~= part_text(part));
}

proof fn lemma_output_text_extends(
    first: Seq<ResponsesOutputItem>,
    second: Seq<ResponsesOutputItem>,
)
    ensures
        output_text(first + second) == output_text(first) + output_text(second),
    decreases second.len(),
{
    if second.len() == 0 {
        assert(first + second =~= first);
        assert(output_text(first) + output_text(second) =~= output_text(first));
    } else {
        lemma_output_text_extends(first, second.drop_last());
        assert((first + second).drop_last() =~= first + second.drop_last());
        assert((first + second).last() == second.last());
        assert(output_text(first + second) =~= output_text(first) + output_text(second));
    }
}

proof fn lemma_parts_text_extends(
    first: Seq<ResponsesOutputPart>,
    second: Seq<ResponsesOutputPart>,
)
    ensures
        parts_text(first + second) == parts_text(first) + parts_text(second),
    decreases second.len(),
{
    if second.len() == 0 {
        assert(first + second =~= first);
        assert(parts_text(first) + parts_text(second) =~= parts_text(first));
    } else {
        lemma_parts_text_extends(first, second.drop_last());
        assert((first + second).drop_last() =~= first + second.drop_last());
        assert((first + second).last() == second.last());
        assert(parts_text(first + second) =~= parts_text(first) + parts_text(second));
    }
}

/// The content of an answer is the whole of its own text; only where it has
/// none does the provider's text count, and an empty text is no content.
pub proof fn law_own_text_comes_first(own: Seq<char>, provided: Seq<char>)
    ensures
        own.len() > 0 ==> answer_content(own, Some(provided)) == Some(own),
        own.len() > 0 ==> answer_content(own, None) == Some(own),
        own.len() == 0 && provided.len() > 0 ==> answer_content(own, Some(provided)) == Some(
            provided,
        ),
        own.len() == 0 && provided.len() == 0 ==> answer_content(own, Some(provided)) is None,
        own.len() == 0 ==> answer_content(own, None) is None,
{
}

/// Each item of a dialogue is sent as what it is: messages with the whole of
/// their text under their role, injected context as `system`, the model's own
/// words as output text; function calls and outputs with every part. Reasoning,
/// calls that the provider executed itself and wait markers are not sent.
pub proof fn law_items_are_sent_whole(
    content: Seq<char>,
    call: session::CallView,
    id: Seq<char>,
    output: Seq<char>,
)
    ensures
        dialogue_input(Seq::empty()) == Seq::<InputView>::empty(),
        dialogue_input(
            seq![session::ItemView::Message { role: MessageRole::User, content }],
        ) == seq![
            InputView::Message { role: "user"@, content: seq![PartView::InputText(content)] },
        ],
        dialogue_input(
            seq![session::ItemView::Message { role: MessageRole::Context, content }],
        ) == seq![
            InputView::Message { role: "system"@, content: seq![PartView::InputText(content)] },
        ],
        dialogue_input(
            seq![session::ItemView::Message { role: MessageRole::Assistant, content }],
        ) == seq![
            InputView::Message {
                role: "assistant"@,
                content: seq![PartView::OutputText(content)],
            },
        ],
        call.kind is FunctionCall && call.name is Some && call.arguments is Some
            ==> dialogue_input(seq![session::ItemView::ToolCall(call)]) == seq![
            InputView::FunctionCall {
                call_id: call.id,
                name: call.name->Some_0,
                arguments: call.arguments->Some_0,
            },
        ],
        call.kind is WebSearchCall ==> dialogue_input(
            seq![session::ItemView::ToolCall(call)],
        ).len() == 0,
        dialogue_input(
            seq![session::ItemView::ToolCallOutput { call_id: id, output }],
        ) == seq![InputView::FunctionCallOutput { call_id: id, output }],
        dialogue_input(seq![session::ItemView::Reasoning { content }]).len() == 0,
        dialogue_input(seq![session::ItemView::Wait { arguments: content }]).len() == 0,
{
    lemma_one_input(session::ItemView::Message { role: MessageRole::User, content });
    lemma_one_input(session::ItemView::Message { role: MessageRole::Context, content });
    lemma_one_input(session::ItemView::Message { role: MessageRole::Assistant, content });
    lemma_one_input(session::ItemView::ToolCall(call));
    lemma_one_input(session::ItemView::ToolCallOutput { call_id: id, output });
    lemma_one_input(session::ItemView::Reasoning { content });
    lemma_one_input(session::ItemView::Wait { arguments: content });
}

proof fn lemma_one_input(item: session::ItemView)
    ensures
        match input_of(item) {
            Some(i) => dialogue_input(seq![item]) == seq![i],
            None => dialogue_input(seq![item]) == Seq::<InputView>::empty(),
        },
{
    reveal_with_fuel(dialogue_input, 2);
    assert(seq![item].drop_last() =~= Seq::empty());
    assert(seq![item].last() == item);
    match input_of(item) {
        Some(i) => {
            assert(dialogue_input(seq![item]) =~= seq![i]);
        },
        None => {},
    }
}

/// A request offers every defined tool, whole and in its place, and the
/// provider's search exactly where it is switched on, behind all others.
pub proof fn law_requests_offer_every_tool(defs: Seq<DefView>, web_search: bool, i: int)
    ensures
        request_tools(defs, web_search).len() == defs.len() + (if web_search {
            1int
        } else {
            0
        }),
        0 <= i < defs.len() ==> request_tools(defs, web_search)[i] == ResponsesToolView::Function(
            defs[i],
        ),
        web_search ==> request_tools(defs, web_search)[defs.len() as int]
            == ResponsesToolView::WebSearch,
{
}

/// The system prompt is sent whole, and left out exactly where it has nothing
/// visible.
pub proof fn law_instructions_are_the_system_prompt(system: Seq<char>)
    ensures
        instructions(system) is None <==> forall|i: int|
            0 <= i < system.len() ==> text::white_space(system[i]),
        instructions(system) matches Some(sent) ==> sent == system,
{
    text::law_blank_texts_are_white_space(system);
}

/// The views of what is sent and of what is answered show every part,
/// character for character.
pub proof fn law_wire_views_show_every_part(
    item: ResponsesInputItem,
    part: ResponsesContentPart,
    tool: ResponsesTool,
    answer: LlmResponse,
    items: Seq<ResponsesInputItem>,
    tools: Seq<ResponsesTool>,
    i: int,
)
    ensures
        match item {
            ResponsesInputItem::Message { role, content } => {
                &&& item@ matches InputView::Message { role: r, content: c }
                &&& r == role@
                &&& c.len() == content@.len()
                &&& forall|j: int| 0 <= j < c.len() ==> #[trigger] c[j] == content@[j]@
            },
            ResponsesInputItem::FunctionCall { call_id, name, arguments } => item@
                == (InputView::FunctionCall {
                call_id: call_id@,
                name: name@,
                arguments: arguments@,
            }),
            ResponsesInputItem::FunctionCallOutput { call_id, output } => item@
                == (InputView::FunctionCallOutput { call_id: call_id@, output: output@ }),
        },
        match part {
            ResponsesContentPart::InputText { text } => part@ == PartView::InputText(text@),
            ResponsesContentPart::OutputText { text } => part@ == PartView::OutputText(text@),
        },
        match tool {
            ResponsesTool::Function { name, description, parameters } => {
                &&& tool@ matches ResponsesToolView::Function(def)
                &&& def.name == name@
                &&& def.description == description@
                &&& def.parameters == parameters@
            },
            ResponsesTool::WebSearch => tool@ is WebSearch,
        },
        answer.id matches Some(id) ==> answer@.id == Some(id@),
        answer.id is None ==> answer@.id is None,
        answer.content matches Some(content) ==> answer@.content == Some(content@),
        answer.content is None ==> answer@.content is None,
        answer.reasoning matches Some(reasoning) ==> answer@.reasoning == Some(reasoning@),
        answer.reasoning is None ==> answer@.reasoning is None,
        answer@.tool_calls.len() == answer.tool_calls@.len(),
        0 <= i < answer.tool_calls@.len() ==> answer@.tool_calls[i] == answer.tool_calls@[i]@,
        input_views(items).len() == items.len(),
        0 <= i < items.len() ==> input_views(items)[i] == items[i]@,
        responses_tool_views(tools).len() == tools.len(),
        0 <= i < tools.len() ==> responses_tool_views(tools)[i] == tools[i]@,
{
}

/// Reading an answer hands on the model's words: the function call at a place
/// of the answer is the tool call at the place that the calls before it leave,
/// under its own name and with its own arguments, and the text is that of the
/// messages, whole.
pub proof fn law_reading_hands_on_the_models_words(
    parsed: ResponsesResponse,
    before: Seq<ResponsesOutputItem>,
    item: ResponsesOutputItem,
    after: Seq<ResponsesOutputItem>,
    r: LlmResponse,
)
    requires
        call_ensures(read_response, (parsed,), r),
        parsed.output@ == before.push(item) + after,
    ensures
        item is FunctionCall && (item->FunctionCall_call_id is Some || item->FunctionCall_id is Some)
            ==> {
            let k = output_calls(before).len() as int;
            &&& k < r.tool_calls@.len()
            &&& item->FunctionCall_call_id matches Some(id) ==> r.tool_calls@[k].id@ == id@
            &&& item->FunctionCall_call_id is None ==> r.tool_calls@[k].id@
                == item->FunctionCall_id->Some_0@
            &&& r.tool_calls@[k].name is Some
            &&& r.tool_calls@[k].name->Some_0@ == item->FunctionCall_name@
            &&& r.tool_calls@[k].arguments is Some
            &&& r.tool_calls@[k].arguments->Some_0@ == item->FunctionCall_arguments@
            &&& r.tool_calls@[k].kind is FunctionCall
        },
        parsed.id matches Some(id) ==> r.id is Some && r.id->Some_0@ == id@,
        parsed.id is None ==> r.id is None,
        output_text(parsed.output@).len() > 0 ==> r.content is Some && r.content->Some_0@
            == output_text(parsed.output@),
        output_text(parsed.output@).len() == 0 && parsed.output_text is Some
            && parsed.output_text->Some_0@.len() > 0 ==> r.content is Some && r.content->Some_0@
            == parsed.output_text->Some_0@,
        r.reasoning is None,
{
    law_calls_carry_the_models_words(before, item, after);
    let calls = output_calls(parsed.output@);
    assert(session::call_views(r.tool_calls@) == calls);
    match item {
        ResponsesOutputItem::FunctionCall { id, call_id, name, arguments } => {
            if call_id is Some || id is Some {
                let k = output_calls(before).len() as int;
                assert(session::call_views(r.tool_calls@)[k] == r.tool_calls@[k]@);
            }
        },
        _ => {},
    }
}

/// A request goes to the configured model under the whole system prompt, and
/// declares tools exactly where there are some to declare.
pub proof fn law_requests_are_what_was_configured(
    client: OpenAiLlm,
    system: &str,
    items: Vec<SessionItem>,
    tools: Vec<ToolDef>,
    r: ResponsesRequest,
)
    requires
        call_ensures(OpenAiLlm::request, (&client, system, &items, &tools), r),
    ensures
        r.model@ == client.model@,
        r.instructions matches Some(sent) ==> sent@ == system@,
        r.instructions is None <==> forall|i: int|
            0 <= i < system@.len() ==> text::white_space(system@[i]),
        r.tools is None <==> tools@.len() == 0 && !client.web_search,
        r.tools matches Some(sent) ==> sent@.len() == tools@.len() + (if client.web_search {
            1int
        } else {
            0
        }),
        input_views(r.input@) == dialogue_input(session::item_views(items@)),
{
    law_instructions_are_the_system_prompt(system@);
    law_requests_offer_every_tool(llm::def_views(tools@), client.web_search, 0);
    assert(llm::def_views(tools@).len() == tools@.len());
    match r.tools {
        Some(sent) => {
            assert(responses_tool_views(sent@).len() == sent@.len());
        },
        None => {},
    }
}

/// Requests go to the endpoint below the configured address, with the
/// configured key; an error tells the status and the whole body.
pub proof fn law_requests_reach_the_configured_provider(
    client: OpenAiLlm,
    endpoint: String,
    header: String,
    status: &str,
    body: &str,
    error: String,
)
    requires
        call_ensures(OpenAiLlm::endpoint, (&client,), endpoint),
        call_ensures(OpenAiLlm::authorization, (&client,), header),
        call_ensures(api_error, (status, body), error),
    ensures
        endpoint@ == client.api_url@ + "/responses"@,
        header@ == "Bearer "@ + client.api_key@,
        error@ == "LLM API error ("@ + status@ + "): "@ + body@,
{
}

} // verus!
