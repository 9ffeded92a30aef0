//! Requests over the items of the agent loop.

use vstd::prelude::*;
use vstd::string::*;

use crate::domain::llm;
use crate::domain::llm::{AnswerView, FunctionView, LlmItem, LlmItemView, MessageRole, ToolCall,
    ToolDef};
use crate::domain::session;
use crate::llm::responses;
use crate::llm::responses::{InputView, OpenAiLlm, PartView, ResponsesContentPart,
    ResponsesInputItem, ResponsesRequest};
use crate::text;

verus! {

/// What an item becomes in the input.
pub open spec fn item_input(item: LlmItemView) -> InputView {
    match item {
        LlmItemView::Message { role, content } => InputView::Message {
            role: llm::role_name(role),
            content: seq![
                match role {
                    MessageRole::User => PartView::InputText(content),
                    MessageRole::Assistant => PartView::OutputText(content),
                },
            ],
        },
        LlmItemView::FunctionCall(call) => InputView::FunctionCall {
            call_id: call.id,
            name: call.name,
            arguments: call.arguments,
        },
        LlmItemView::FunctionCallOutput { call_id, output } => InputView::FunctionCallOutput {
            call_id,
            output,
        },
    }
}

fn to_input_item(item: &LlmItem) -> (r: ResponsesInputItem)
    ensures
        r@ == item_input(item@),
{
    match item {
        LlmItem::Message { role, content } => {
            let part = match role {
                MessageRole::User => ResponsesContentPart::InputText { text: content.clone() },
                MessageRole::Assistant => ResponsesContentPart::OutputText {
                    text: content.clone(),
                },
            };
            let ghost shown = part@;
            let mut parts: Vec<ResponsesContentPart> = Vec::new();
            parts.push(part);
            assert(parts@.map_values(|p: ResponsesContentPart| p@) =~= seq![shown]);
            ResponsesInputItem::Message { role: role.as_str().to_owned(), content: parts }
        },
        LlmItem::FunctionCall(call) => ResponsesInputItem::FunctionCall {
            call_id: call.id.clone(),
            name: call.name.clone(),
            arguments: call.arguments.clone(),
        },
        LlmItem::FunctionCallOutput { call_id, output } =>
            ResponsesInputItem::FunctionCallOutput {
            call_id: call_id.clone(),
            output: output.clone(),
        },
    }
}

/// The input items of a dialogue, one for one and in order.
pub fn to_responses_input(items: &Vec<LlmItem>) -> (r: Vec<ResponsesInputItem>)
    ensures
        responses::input_views(r@) == llm::llm_item_views(items@).map_values(
            |i: LlmItemView| item_input(i),
        ),
{
    let mut r: Vec<ResponsesInputItem> = Vec::new();
    let mut i: usize = 0;
    while i < items.len()
        invariant
            i <= items@.len(),
            r@.len() == i,
            forall|j: int| 0 <= j < i ==> (#[trigger] r@[j])@ == item_input(items@[j]@),
        decreases items@.len() - i,
    {
        r.push(to_input_item(&items[i]));
        i = i + 1;
    }
    assert(responses::input_views(r@) =~= llm::llm_item_views(items@).map_values(
        |i: LlmItemView| item_input(i),
    ));
    r
}

/// The instructions of a request: the system prompt, where there is one.
pub fn build_instructions(system: &str) -> (r: Option<String>)
    ensures
        text::opt_text(r) == (if system@.len() == 0 {
            None
        } else {
            Some(system@)
        }),
{
    if text::is_empty(system) {
        None
    } else {
        Some(system.to_owned())
    }
}

/// The request for the next answer in a dialogue of the agent loop.
pub fn request(client: &OpenAiLlm, system: &str, items: &Vec<LlmItem>, tools: &Vec<ToolDef>) -> (r:
    ResponsesRequest)
    ensures
        r.model@ == client.model@,
        text::opt_text(r.instructions) == (if system@.len() == 0 {
            None
        } else {
            Some(system@)
        }),
        responses::input_views(r.input@) == llm::llm_item_views(items@).map_values(
            |i: LlmItemView| item_input(i),
        ),
        match r.tools {
            None => responses::request_tools(llm::def_views(tools@), client.web_search).len() == 0,
            Some(v) => v@.len() > 0 && responses::responses_tool_views(v@)
                == responses::request_tools(llm::def_views(tools@), client.web_search),
        },
{
    let api_tools = responses::build_responses_tools(tools, client.web_search);
    assert(api_tools@.len() == responses::responses_tool_views(api_tools@).len());
    ResponsesRequest {
        model: client.model.clone(),
        instructions: build_instructions(system),
        input: to_responses_input(items),
        tools: if api_tools.len() == 0 {
            None
        } else {
            Some(api_tools)
        },
    }
}

/// What the agent loop sees of a call: a missing name or missing arguments are
/// empty.
pub open spec fn loop_call(call: session::CallView) -> FunctionView {
    FunctionView {
        id: call.id,
        name: responses::text_or_empty(call.name),
        arguments: responses::text_or_empty(call.arguments),
    }
}

fn or_empty(o: &Option<String>) -> (r: String)
    ensures
        r@ == responses::text_or_empty(text::opt_text(*o)),
{
    match o {
        Some(s) => s.clone(),
        None => {
            let r = String::new();
            assert(r@ =~= Seq::empty());
            r
        },
    }
}

/// What the agent loop sees of an answer: its text and its calls.
pub fn loop_answer(answer: responses::LlmResponse) -> (r: llm::LlmResponse)
    ensures
        r@ == (AnswerView {
            content: answer@.content,
            tool_calls: answer@.tool_calls.map_values(|c: session::CallView| loop_call(c)),
        }),
{
    let mut calls: Vec<ToolCall> = Vec::new();
    let given = &answer.tool_calls;
    let mut i: usize = 0;
    while i < given.len()
        invariant
            i <= given@.len(),
            calls@.len() == i,
            forall|j: int| 0 <= j < i ==> (#[trigger] calls@[j])@ == loop_call(given@[j]@),
        decreases given@.len() - i,
    {
        let call = &given[i];
        calls.push(
            ToolCall {
                id: call.id.clone(),
                name: or_empty(&call.name),
                arguments: or_empty(&call.arguments),
            },
        );
        i = i + 1;
    }
    assert(llm::function_views(calls@) =~= answer@.tool_calls.map_values(
        |c: session::CallView| loop_call(c),
    ));
    llm::LlmResponse { content: answer.content, tool_calls: calls }
}

/// Every item of the loop is sent whole, as what it is: messages under their
/// role, the model's own words as output text; calls and outputs with every
/// part.
pub proof fn law_loop_items_are_sent_whole(
    content: Seq<char>,
    call: FunctionView,
    id: Seq<char>,
    output: Seq<char>,
)
    ensures
        item_input(LlmItemView::Message { role: MessageRole::User, content }) == (
        InputView::Message { role: "user"@, content: seq![PartView::InputText(content)] }),
        item_input(LlmItemView::Message { role: MessageRole::Assistant, content }) == (
        InputView::Message { role: "assistant"@, content: seq![PartView::OutputText(content)] }),
        item_input(LlmItemView::FunctionCall(call)) == (InputView::FunctionCall {
            call_id: call.id,
            name: call.name,
            arguments: call.arguments,
        }),
        item_input(LlmItemView::FunctionCallOutput { call_id: id, output }) == (
        InputView::FunctionCallOutput { call_id: id, output }),
{
}

/// The loop sees a call with its id, its name and its arguments as the model
/// gave them; what is missing is empty.
pub proof fn law_loop_calls_carry_the_models_words(call: session::CallView)
    ensures
        loop_call(call).id == call.id,
        call.name matches Some(name) ==> loop_call(call).name == name,
        call.name is None ==> loop_call(call).name.len() == 0,
        call.arguments matches Some(arguments) ==> loop_call(call).arguments == arguments,
        call.arguments is None ==> loop_call(call).arguments.len() == 0,
{
}

/// A request of the loop goes to the configured model with the whole system
/// prompt, and every item of the dialogue is in its place.
pub proof fn law_loop_requests_hold_every_item(
    client: OpenAiLlm,
    system: &str,
    items: Vec<LlmItem>,
    tools: Vec<ToolDef>,
    r: ResponsesRequest,
    i: int,
)
    requires
        call_ensures(request, (&client, system, &items, &tools), r),
    ensures
        r.model@ == client.model@,
        r.instructions is None <==> system@.len() == 0,
        r.instructions matches Some(sent) ==> sent@ == system@,
        r.input@.len() == items@.len(),
        0 <= i < items@.len() ==> r.input@[i]@ == item_input(items@[i]@),
        r.tools is None <==> tools@.len() == 0 && !client.web_search,
{
    let views = llm::llm_item_views(items@);
    assert(responses::input_views(r.input@).len() == r.input@.len());
    assert(views.len() == items@.len());
    if 0 <= i < items@.len() {
        assert(responses::input_views(r.input@)[i] == r.input@[i]@);
        assert(views[i] == items@[i]@);
    }
    responses::law_requests_offer_every_tool(llm::def_views(tools@), client.web_search, 0);
    assert(llm::def_views(tools@).len() == tools@.len());
}

/// The loop sees the whole text of an answer and each of its calls in its place.
pub proof fn law_loop_answers_hold_every_call(
    answer: responses::LlmResponse,
    r: llm::LlmResponse,
    i: int,
)
    requires
        call_ensures(loop_answer, (answer,), r),
    ensures
        answer.content matches Some(content) ==> r.content is Some && r.content->Some_0@
            == content@,
        answer.content is None ==> r.content is None,
        r.tool_calls@.len() == answer.tool_calls@.len(),
        0 <= i < r.tool_calls@.len() ==> {
            let call = answer.tool_calls@[i];
            &&& r.tool_calls@[i].id@ == call.id@
            &&& call.name matches Some(name) ==> r.tool_calls@[i].name@ == name@
            &&& call.arguments matches Some(arguments) ==> r.tool_calls@[i].arguments@
                == arguments@
        },
{
    let views = llm::function_views(r.tool_calls@);
    assert(views.len() == r.tool_calls@.len());
    assert(answer@.tool_calls.len() == answer.tool_calls@.len());
    if 0 <= i < r.tool_calls@.len() {
        assert(views[i] == r.tool_calls@[i]@);
        assert(answer@.tool_calls[i] == answer.tool_calls@[i]@);
    }
}

} // verus!
