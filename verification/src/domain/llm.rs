//! The items of a dialogue as the agent loop sees them, and their raw JSON.

use vstd::prelude::*;
use vstd::string::*;

use crate::domain::tool;
use crate::domain::tool::{Tool, ToolParams, ToolRegistry};
use crate::text;

verus! {

// Tools ---------------------------------------------------------------------

/// One tool as a request declares it.
#[derive(Debug)]
pub struct ToolDef {
    pub name: String,
    pub description: String,
    pub parameters: ToolParams,
}

/// The view of a [`ToolDef`].
pub struct DefView {
    pub name: Seq<char>,
    pub description: Seq<char>,
    pub parameters: tool::ParamsView,
}

impl View for ToolDef {
    type V = DefView;

    open spec fn view(&self) -> DefView {
        DefView {
            name: self.name@,
            description: self.description@,
            parameters: self.parameters@,
        }
    }
}

impl Clone for ToolDef {
    fn clone(&self) -> (r: Self)
        ensures
            r@ == self@,
    {
        ToolDef {
            name: self.name.clone(),
            description: self.description.clone(),
            parameters: self.parameters.clone(),
        }
    }
}

/// What a tool declares of itself.
pub open spec fn definition<T: Tool>(t: T) -> DefView {
    DefView {
        name: t.tool_name(),
        description: t.tool_description(),
        parameters: t.tool_parameters(),
    }
}

/// The views of a list of definitions.
pub open spec fn def_views(defs: Seq<ToolDef>) -> Seq<DefView> {
    defs.map_values(|d: ToolDef| d@)
}

/// The definition of one tool.
pub fn tool_def<T: Tool>(t: &T) -> (r: ToolDef)
    ensures
        r@ == definition(*t),
{
    ToolDef {
        name: t.name().to_owned(),
        description: t.description().to_owned(),
        parameters: t.parameters(),
    }
}

/// The definitions of the registered tools, in the order of their names.
pub fn build_tool_defs<T: Tool>(registry: &ToolRegistry<T>) -> (r: Vec<ToolDef>)
    requires
        registry.wf(),
    ensures
        def_views(r@) == registry.listing().map_values(|t: T| definition(t)),
{
    let tools = registry.list();
    let mut r: Vec<ToolDef> = Vec::new();
    let mut i: usize = 0;
    while i < tools.len()
        invariant
            i <= tools@.len(),
            r@.len() == i,
            forall|j: int| 0 <= j < i ==> (#[trigger] r@[j])@ == definition(tools@[j]),
        decreases tools@.len() - i,
    {
        r.push(tool_def(&tools[i]));
        i = i + 1;
    }
    assert(def_views(r@) =~= registry.listing().map_values(|t: T| definition(t)));
    r
}

// Items ---------------------------------------------------------------------

/// A function call requested by the model.
#[derive(Debug)]
pub struct ToolCall {
    pub id: String,
    pub name: String,
    pub arguments: String,
}

/// The view of a [`ToolCall`].
pub struct FunctionView {
    pub id: Seq<char>,
    pub name: Seq<char>,
    pub arguments: Seq<char>,
}

impl View for ToolCall {
    type V = FunctionView;

    open spec fn view(&self) -> FunctionView {
        FunctionView { id: self.id@, name: self.name@, arguments: self.arguments@ }
    }
}

impl Clone for ToolCall {
    fn clone(&self) -> (r: Self)
        ensures
            r == *self,
    {
        ToolCall {
            id: self.id.clone(),
            name: self.name.clone(),
            arguments: self.arguments.clone(),
        }
    }
}

/// The raw JSON of a call: id and name as strings, the arguments as they are.
pub open spec fn call_json(call: FunctionView) -> Seq<char> {
    "{\"id\":\""@ + call.id + "\",\"name\":\""@ + call.name + "\",\"arguments\":"@
        + call.arguments + "}"@
}

impl ToolCall {
    /// The raw JSON of the call.
    pub fn raw_json(&self) -> (r: String)
        ensures
            r@ == call_json(self@),
    {
        "{\"id\":\"".to_owned().concat(self.id.as_str()).concat("\",\"name\":\"").concat(
            self.name.as_str(),
        ).concat("\",\"arguments\":").concat(self.arguments.as_str()).concat("}")
    }
}

/// Message roles of the agent loop.
#[derive(Debug, Clone, Copy, PartialEq, Eq, Structural)]
pub enum MessageRole {
    User,
    Assistant,
}

/// The name of a role.
pub open spec fn role_name(role: MessageRole) -> Seq<char> {
    match role {
        MessageRole::User => "user"@,
        MessageRole::Assistant => "assistant"@,
    }
}

impl MessageRole {
    pub fn as_str(&self) -> (r: &'static str)
        ensures
            r@ == role_name(*self),
    {
        match self {
            MessageRole::User => "user",
            MessageRole::Assistant => "assistant",
        }
    }
}

/// One unit of a dialogue.
#[derive(Debug)]
pub enum LlmItem {
    Message { role: MessageRole, content: String },
    FunctionCall(ToolCall),
    FunctionCallOutput { call_id: String, output: String },
}

/// The view of an [`LlmItem`].
pub enum LlmItemView {
    Message { role: MessageRole, content: Seq<char> },
    FunctionCall(FunctionView),
    FunctionCallOutput { call_id: Seq<char>, output: Seq<char> },
}

impl View for LlmItem {
    type V = LlmItemView;

    open spec fn view(&self) -> LlmItemView {
        match *self {
            LlmItem::Message { role, content } => LlmItemView::Message { role, content: content@ },
            LlmItem::FunctionCall(call) => LlmItemView::FunctionCall(call@),
            LlmItem::FunctionCallOutput { call_id, output } => LlmItemView::FunctionCallOutput {
                call_id: call_id@,
                output: output@,
            },
        }
    }
}

impl Clone for LlmItem {
    fn clone(&self) -> (r: Self)
        ensures
            r == *self,
    {
        match self {
            LlmItem::Message { role, content } => LlmItem::Message {
                role: *role,
                content: content.clone(),
            },
            LlmItem::FunctionCall(call) => LlmItem::FunctionCall(call.clone()),
            LlmItem::FunctionCallOutput { call_id, output } => LlmItem::FunctionCallOutput {
                call_id: call_id.clone(),
                output: output.clone(),
            },
        }
    }
}

/// The views of a list of items.
pub open spec fn llm_item_views(items: Seq<LlmItem>) -> Seq<LlmItemView> {
    items.map_values(|i: LlmItem| i@)
}

/// The raw JSON of an item.
pub open spec fn item_json(item: LlmItemView) -> Seq<char> {
    match item {
        LlmItemView::Message { role, content } => "{\"role\":\""@ + role_name(role)
            + "\",\"content\":\""@ + escaped(content) + "\"}"@,
        LlmItemView::FunctionCall(call) => call_json(call),
        LlmItemView::FunctionCallOutput { call_id, output } => "{\"call_id\":\""@ + escaped(
            call_id,
        ) + "\",\"output\":\""@ + escaped(output) + "\"}"@,
    }
}

impl LlmItem {
    /// The raw JSON of the item, as history stores it.
    pub fn raw_json(&self) -> (r: String)
        ensures
            r@ == item_json(self@),
    {
        match self {
            LlmItem::Message { role, content } => "{\"role\":\"".to_owned().concat(
                role.as_str(),
            ).concat("\",\"content\":\"").concat(escape_json(content.as_str()).as_str()).concat(
                "\"}",
            ),
            LlmItem::FunctionCall(call) => call.raw_json(),
            LlmItem::FunctionCallOutput { call_id, output } =>
                "{\"call_id\":\"".to_owned().concat(
                escape_json(call_id.as_str()).as_str(),
            ).concat("\",\"output\":\"").concat(escape_json(output.as_str()).as_str()).concat(
                "\"}",
            ),
        }
    }
}

// Escaping --------------------------------------------------------------------

/// A character as it stands in a JSON string.
pub open spec fn escaped_char(c: char) -> Seq<char> {
    if c == '\\' {
        seq!['\\', '\\']
    } else if c == '"' {
        seq!['\\', '"']
    } else if c == '\n' {
        seq!['\\', 'n']
    } else if c == '\r' {
        seq!['\\', 'r']
    } else if c == '\t' {
        seq!['\\', 't']
    } else {
        seq![c]
    }
}

/// A text as it stands in a JSON string: backslashes, quotation marks, line
/// feeds, carriage returns and tabs are escaped.
pub open spec fn escaped(s: Seq<char>) -> Seq<char>
    decreases s.len(),
{
    if s.len() == 0 {
        Seq::empty()
    } else {
        escaped(s.drop_last()) + escaped_char(s.last())
    }
}

/// A text as it stands in a JSON string.
pub fn escape_json(s: &str) -> (r: String)
    ensures
        r@ == escaped(s@),
{
    let chars = text::chars_of(s);
    let mut r: String = String::new();
    let mut i: usize = 0;
    assert(r@ =~= escaped(chars@.take(0)));
    while i < chars.len()
        invariant
            i <= chars@.len(),
            r@ == escaped(chars@.take(i as int)),
        decreases chars@.len() - i,
    {
        let c = chars[i];
        let ghost before = r@;
        proof {
            let t = chars@.take(i + 1);
            assert(t.drop_last() =~= chars@.take(i as int));
            assert(t.last() == c);
        }
        if c == '\\' {
            r.push('\\');
            r.push('\\');
        } else if c == '"' {
            r.push('\\');
            r.push('"');
        } else if c == '\n' {
            r.push('\\');
            r.push('n');
        } else if c == '\r' {
            r.push('\\');
            r.push('r');
        } else if c == '\t' {
            r.push('\\');
            r.push('t');
        } else {
            r.push(c);
        }
        assert(r@ =~= before + escaped_char(c));
        i = i + 1;
    }
    assert(chars@.take(i as int) =~= chars@);
    r
}

/// The character that an escape stands for.
pub open spec fn unescaped_char(c: char) -> char {
    if c == 'n' {
        '\n'
    } else if c == 'r' {
        '\r'
    } else if c == 't' {
        '\t'
    } else {
        c
    }
}

/// The text that an escaped text stands for.
pub open spec fn unescaped(s: Seq<char>) -> Seq<char>
    decreases s.len(),
{
    if s.len() == 0 {
        Seq::empty()
    } else if s[0] == '\\' && s.len() >= 2 {
        seq![unescaped_char(s[1])] + unescaped(s.skip(2))
    } else {
        seq![s[0]] + unescaped(s.skip(1))
    }
}

proof fn lemma_escaped_front(s: Seq<char>)
    requires
        s.len() > 0,
    ensures
        escaped(s) == escaped_char(s[0]) + escaped(s.drop_first()),
    decreases s.len(),
{
    if s.len() == 1 {
        assert(s.drop_last() =~= Seq::empty());
        assert(s.drop_first() =~= Seq::empty());
        assert(escaped(s) =~= escaped_char(s[0]) + escaped(s.drop_first()));
    } else {
        lemma_escaped_front(s.drop_last());
        assert(s.drop_last().drop_first() =~= s.drop_first().drop_last());
        assert(escaped(s) =~= escaped_char(s[0]) + escaped(s.drop_first()));
    }
}

/// Escaping loses nothing: unescaping gives the text back, so different texts
/// have different escaped forms.
pub proof fn law_escaping_round_trips(s: Seq<char>)
    ensures
        unescaped(escaped(s)) == s,
    decreases s.len(),
{
    if s.len() > 0 {
        let rest = s.drop_first();
        lemma_escaped_front(s);
        law_escaping_round_trips(rest);
        let e = escaped(s);
        let n = escaped_char(s[0]).len() as int;
        assert(e.skip(n) =~= escaped(rest));
        assert(e[0] == escaped_char(s[0])[0]);
        if n == 2 {
            assert(e[1] == escaped_char(s[0])[1]);
        }
        assert(unescaped(e) =~= seq![s[0]] + rest);
        assert(s =~= seq![s[0]] + rest);
    }
}

/// The raw JSON of a message keeps its role and its content: two messages with
/// the same raw JSON are the same.
pub proof fn law_message_json_is_injective(
    role_a: MessageRole,
    a: Seq<char>,
    role_b: MessageRole,
    b: Seq<char>,
)
    requires
        item_json(LlmItemView::Message { role: role_a, content: a }) == item_json(
            LlmItemView::Message { role: role_b, content: b },
        ),
    ensures
        role_a == role_b,
        a == b,
{
    reveal_strlit("{\"role\":\"");
    reveal_strlit("user");
    reveal_strlit("assistant");
    reveal_strlit("\",\"content\":\"");
    reveal_strlit("\"}");
    let x = item_json(LlmItemView::Message { role: role_a, content: a });
    let y = item_json(LlmItemView::Message { role: role_b, content: b });
    let head = "{\"role\":\""@.len() as int;
    assert(x[head] == role_name(role_a)[0]);
    assert(y[head] == role_name(role_b)[0]);
    assert(role_a == role_b);
    let start = head + role_name(role_a).len() + "\",\"content\":\""@.len();
    assert(x.subrange(start as int, x.len() - 2) =~= escaped(a));
    assert(y.subrange(start as int, y.len() - 2) =~= escaped(b));
    law_escaping_round_trips(a);
    law_escaping_round_trips(b);
}

/// The model's answer to one request of the agent loop.
#[derive(Debug)]
pub struct LlmResponse {
    pub content: Option<String>,
    pub tool_calls: Vec<ToolCall>,
}

/// The view of an [`LlmResponse`].
pub struct AnswerView {
    pub content: Option<Seq<char>>,
    pub tool_calls: Seq<FunctionView>,
}

/// The views of a list of calls.
pub open spec fn function_views(calls: Seq<ToolCall>) -> Seq<FunctionView> {
    calls.map_values(|c: ToolCall| c@)
}

impl View for LlmResponse {
    type V = AnswerView;

    open spec fn view(&self) -> AnswerView {
        AnswerView {
            content: text::opt_text(self.content),
            tool_calls: function_views(self.tool_calls@),
        }
    }
}

/// Escaping goes character by character: the five characters that JSON strings
/// escape stand behind a backslash, every other stands for itself.
pub proof fn law_escaping_goes_by_character(first: Seq<char>, second: Seq<char>, c: char)
    ensures
        escaped(first + second) == escaped(first) + escaped(second),
        escaped(seq!['\\']) == seq!['\\', '\\'],
        escaped(seq!['"']) == seq!['\\', '"'],
        escaped(seq!['\n']) == seq!['\\', 'n'],
        escaped(seq!['\r']) == seq!['\\', 'r'],
        escaped(seq!['\t']) == seq!['\\', 't'],
        c != '\\' && c != '"' && c != '\n' && c != '\r' && c != '\t' ==> escaped(seq![c])
            == seq![c],
{
    lemma_escaped_extends(first, second);
    lemma_escaped_one('\\');
    lemma_escaped_one('"');
    lemma_escaped_one('\n');
    lemma_escaped_one('\r');
    lemma_escaped_one('\t');
    lemma_escaped_one(c);
}

proof fn lemma_escaped_one(c: char)
    ensures
        escaped(seq![c]) == escaped_char(c),
{
    reveal_with_fuel(escaped, 2);
    assert(seq![c].drop_last() =~= Seq::empty());
    assert(escaped(seq![c]) =~= escaped_char(c));
}

proof fn lemma_escaped_extends(first: Seq<char>, second: Seq<char>)
    ensures
        escaped(first + second) == escaped(first) + escaped(second),
    decreases second.len(),
{
    if second.len() == 0 {
        assert(first + second =~= first);
        assert(escaped(first) + escaped(second) =~= escaped(first));
    } else {
        lemma_escaped_extends(first, second.drop_last());
        assert((first + second).drop_last() =~= first + second.drop_last());
        assert((first + second).last() == second.last());
        assert(escaped(first + second) =~= escaped(first) + escaped(second));
    }
}

/// The raw JSON of an item holds every part of it, escaped but for what a call
/// carries, which stands as the model gave it.
pub proof fn law_raw_json_holds_every_part(
    content: Seq<char>,
    call: FunctionView,
    id: Seq<char>,
    output: Seq<char>,
)
    ensures
        item_json(LlmItemView::Message { role: MessageRole::User, content }) == "{\"role\":\""@
            + "user"@ + "\",\"content\":\""@ + escaped(content) + "\"}"@,
        item_json(LlmItemView::Message { role: MessageRole::Assistant, content })
            == "{\"role\":\""@ + "assistant"@ + "\",\"content\":\""@ + escaped(content) + "\"}"@,
        item_json(LlmItemView::FunctionCall(call)) == "{\"id\":\""@ + call.id
            + "\",\"name\":\""@ + call.name + "\",\"arguments\":"@ + call.arguments + "}"@,
        item_json(LlmItemView::FunctionCallOutput { call_id: id, output }) == "{\"call_id\":\""@
            + escaped(id) + "\",\"output\":\""@ + escaped(output) + "\"}"@,
{
}

/// The definition of a tool holds what the tool declares, and views of lists
/// show each element in its place.
pub proof fn law_definitions_show_the_tool<T: Tool>(
    t: T,
    defs: Seq<ToolDef>,
    items: Seq<LlmItem>,
    calls: Seq<ToolCall>,
    answer: LlmResponse,
    i: int,
)
    ensures
        definition(t).name == t.tool_name(),
        definition(t).description == t.tool_description(),
        definition(t).parameters == t.tool_parameters(),
        def_views(defs).len() == defs.len(),
        0 <= i < defs.len() ==> def_views(defs)[i].name == defs[i].name@ && def_views(
            defs,
        )[i].description == defs[i].description@ && def_views(defs)[i].parameters
            == defs[i].parameters@,
        llm_item_views(items).len() == items.len(),
        0 <= i < items.len() ==> match items[i] {
            LlmItem::Message { role, content } => llm_item_views(items)[i] == (
            LlmItemView::Message { role, content: content@ }),
            LlmItem::FunctionCall(call) => llm_item_views(items)[i] == LlmItemView::FunctionCall(
                call@,
            ),
            LlmItem::FunctionCallOutput { call_id, output } => llm_item_views(items)[i] == (
            LlmItemView::FunctionCallOutput { call_id: call_id@, output: output@ }),
        },
        function_views(calls).len() == calls.len(),
        0 <= i < calls.len() ==> function_views(calls)[i].id == calls[i].id@ && function_views(
            calls,
        )[i].name == calls[i].name@ && function_views(calls)[i].arguments == calls[i].arguments@,
        answer.content matches Some(content) ==> answer@.content == Some(content@),
        answer.content is None ==> answer@.content is None,
        answer@.tool_calls == function_views(answer.tool_calls@),
{
}

} // verus!
