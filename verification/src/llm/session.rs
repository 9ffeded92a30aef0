//! The sessions of one storage directory and the tool calls they run.

use vstd::prelude::*;
use vstd::string::*;

use crate::domain::session;
use crate::domain::session::{CallView, ItemView, MessageRole, SessionItem, ToolCall};
use crate::domain::tool::{Tool, ToolRegistry, Value};
use crate::llm::args;
use crate::llm::responses;
use crate::text;

verus! {

/// How the model provider is reached.
#[derive(Debug)]
pub struct LlmConfig {
    pub api_url: String,
    pub api_key: String,
    pub model: String,
    pub web_search: bool,
}

/// The raw arguments of a call: an empty object where it carries none.
pub open spec fn raw_text(call: CallView) -> Seq<char> {
    match call.arguments {
        Some(raw) => raw,
        None => "{}"@,
    }
}

/// The raw arguments of a call.
pub fn raw_arguments(call: &ToolCall) -> (r: String)
    ensures
        r@ == raw_text(call@),
{
    match &call.arguments {
        Some(raw) => raw.clone(),
        None => "{}".to_owned(),
    }
}

/// The name of the tool that a call asks for.
pub fn called_name(call: &ToolCall) -> (r: String)
    ensures
        r@ == responses::text_or_empty(call@.name),
{
    match &call.name {
        Some(name) => name.clone(),
        None => String::new(),
    }
}

/// Why a call is not run.
#[derive(Debug)]
pub enum Refusal {
    /// No tool of that name is registered.
    UnknownTool { name: String },
    /// The arguments do not satisfy the tool's definition.
    RejectedArgs { name: String, violations: Vec<String> },
}

/// Resolves a function call against the registry as it is now: the tool and
/// its arguments, or why it is refused. `parsed` is what reading the raw
/// arguments as JSON gave.
pub fn resolve_call<'a, T: Tool>(
    registry: &'a ToolRegistry<T>,
    call: &ToolCall,
    parsed: Result<Value, String>,
) -> (r: Result<(&'a T, Vec<(String, Value)>), Refusal>)
    requires
        registry.wf(),
    ensures
        ({
            let name = responses::text_or_empty(call@.name);
            if !registry@.dom().contains(name) {
                r matches Err(Refusal::UnknownTool { name: n }) && n@ == name
            } else {
                let params = registry@[name].tool_parameters();
                match parsed {
                    Ok(Value::Object(object)) => {
                        let found = args::violations(object@, params);
                        if found.len() == 0 {
                            r matches Ok(run) && *run.0 == registry@[name] && run.1 == object
                        } else {
                            r matches Err(Refusal::RejectedArgs { name: n, violations }) && n@
                                == name && text::texts(violations@) == found
                        }
                    },
                    Ok(_) => r matches Err(Refusal::RejectedArgs { name: n, violations }) && n@
                        == name && text::texts(violations@) == seq![
                        "arguments must be a JSON object"@,
                    ],
                    Err(e) => r matches Err(Refusal::RejectedArgs { name: n, violations }) && n@
                        == name && text::texts(violations@) == seq![
                        "arguments are not valid JSON: "@ + e@,
                    ],
                }
            }
        }),
{
    let name = called_name(call);
    match registry.get(name.as_str()) {
        Some(tool) => match args::parse_tool_args(parsed, &tool.parameters()) {
            Ok(arguments) => Ok((tool, arguments)),
            Err(violations) => {
                proof {
                    assert(text::texts(violations@).len() == violations@.len());
                }
                Err(Refusal::RejectedArgs { name, violations })
            },
        },
        None => Err(Refusal::UnknownTool { name }),
    }
}

impl Refusal {
    /// The error that the model is told. `definition` is the tool's
    /// definition as text; violations are never told.
    pub fn message(&self, definition: &str) -> (r: String)
        ensures
            r@ == (match *self {
                Refusal::UnknownTool { name } => "unknown tool: "@ + name@,
                Refusal::RejectedArgs { name, violations } => args::feedback_text(
                    name@,
                    definition@,
                ),
            }),
    {
        match self {
            Refusal::UnknownTool { name } => "unknown tool: ".to_owned().concat(name.as_str()),
            Refusal::RejectedArgs { name, violations } => args::rejected_tool_args_feedback(
                name.as_str(),
                definition,
            ),
        }
    }
}

/// How a session is come by.
#[derive(Debug, Clone, Copy, PartialEq, Eq, Structural)]
pub enum Lookup {
    /// It is loaded already.
    Loaded,
    /// It is stored: build it.
    Stored,
    /// There is none.
    Missing,
}

/// The sessions of one storage directory.
pub struct SqliteSessionManager {
    pub persona_name: String,
    pub system: String,
    pub context: String,
    pub config: LlmConfig,
    pub loaded: Vec<String>,
}

/// The items that a fresh session opens with.
pub open spec fn opening(context: Seq<char>) -> Seq<ItemView> {
    if context.len() == 0 {
        Seq::empty()
    } else {
        seq![ItemView::Message { role: MessageRole::Context, content: context }]
    }
}

impl SqliteSessionManager {
    /// The ids of the loaded sessions.
    pub open spec fn loaded_ids(&self) -> Seq<Seq<char>> {
        text::texts(self.loaded@)
    }

    pub fn new(persona_name: String, system: String, context: String, config: LlmConfig) -> (r:
        Self)
        ensures
            r.persona_name == persona_name,
            r.system == system,
            r.context == context,
            r.config == config,
            r.loaded_ids() == Seq::<Seq<char>>::empty(),
    {
        let r = SqliteSessionManager { persona_name, system, context, config, loaded: Vec::new() };
        assert(r.loaded_ids() =~= Seq::<Seq<char>>::empty());
        r
    }

    /// The items to store in a fresh session: the persona's context, where it
    /// has one.
    pub fn opening_items(&self) -> (r: Vec<SessionItem>)
        ensures
            session::item_views(r@) == opening(self.context@),
    {
        let mut r: Vec<SessionItem> = Vec::new();
        if !text::is_empty(self.context.as_str()) {
            r.push(
                SessionItem::Message {
                    role: MessageRole::Context,
                    content: self.context.clone(),
                },
            );
        }
        assert(session::item_views(r@) =~= opening(self.context@));
        r
    }

    /// Looks a session up, where `stored` says whether its file exists. A
    /// stored session counts as loaded from here on.
    pub fn load(&mut self, id: &str, stored: bool) -> (r: Lookup)
        ensures
            r == (if old(self).loaded_ids().contains(id@) {
                Lookup::Loaded
            } else if stored {
                Lookup::Stored
            } else {
                Lookup::Missing
            }),
            final(self).loaded_ids() == (if r == Lookup::Stored {
                old(self).loaded_ids().push(id@)
            } else {
                old(self).loaded_ids()
            }),
            final(self).persona_name == old(self).persona_name,
            final(self).system == old(self).system,
            final(self).context == old(self).context,
            final(self).config == old(self).config,
    {
        let ghost ids = self.loaded_ids();
        let mut i: usize = 0;
        while i < self.loaded.len()
            invariant
                i <= self.loaded@.len(),
                ids == text::texts(self.loaded@),
                *self == *old(self),
                ids == old(self).loaded_ids(),
                forall|j: int| 0 <= j < i ==> #[trigger] ids[j] != id@,
            decreases self.loaded@.len() - i,
        {
            assert(ids[i as int] == self.loaded@[i as int]@);
            if text::str_eq(self.loaded[i].as_str(), id) {
                return Lookup::Loaded;
            }
            i = i + 1;
        }
        if stored {
            self.loaded.push(id.to_owned());
            assert(self.loaded_ids() =~= ids.push(id@));
            Lookup::Stored
        } else {
            Lookup::Missing
        }
    }
}

/// The arguments of a call are the model's own, character for character; a call
/// without any stands for an empty object.
pub proof fn law_raw_arguments_are_the_models(call: CallView)
    ensures
        call.arguments matches Some(raw) ==> raw_text(call) == raw,
        call.arguments is None ==> raw_text(call) == "{}"@,
{
}

/// A fresh session opens with the whole context of the persona as injected
/// context, and with nothing where the persona has none.
pub proof fn law_sessions_open_with_the_context(context: Seq<char>)
    ensures
        context.len() > 0 ==> opening(context).len() == 1 && opening(context)[0] == (
        ItemView::Message { role: MessageRole::Context, content: context }),
        context.len() == 0 ==> opening(context).len() == 0,
{
}

/// A call is run exactly where its tool is registered and its arguments are an
/// object that satisfies the tool's parameters; it is then run with that tool
/// and with the arguments as the model gave them. Else the refusal names the
/// tool that was asked for.
pub proof fn law_calls_run_with_their_own_arguments<'a, T: Tool>(
    registry: &'a ToolRegistry<T>,
    call: ToolCall,
    parsed: Result<Value, String>,
    r: Result<(&'a T, Vec<(String, Value)>), Refusal>,
)
    requires
        registry.wf(),
        call_ensures(resolve_call::<T>, (registry, &call, parsed), r),
    ensures
        ({
            let name = match call.name {
                Some(name) => name@,
                None => Seq::empty(),
            };
            &&& r is Ok <==> registry@.dom().contains(name) && parsed is Ok && parsed->Ok_0
                is Object && args::violations(
                parsed->Ok_0->Object_0@,
                registry@[name].tool_parameters(),
            ).len() == 0
            &&& r matches Ok(run) ==> *run.0 == registry@[name] && run.1 == parsed->Ok_0->Object_0
            &&& r matches Err(Refusal::UnknownTool { name: told }) ==> told@ == name
                && !registry@.dom().contains(name)
            &&& r matches Err(Refusal::RejectedArgs { name: told, violations }) ==> told@ == name
                && registry@.dom().contains(name) && violations@.len() > 0
        }),
{
    match r {
        Err(Refusal::RejectedArgs { name, violations }) => {
            assert(text::texts(violations@).len() == violations@.len());
        },
        _ => {},
    }
}

/// A refused call is told by name: an unknown tool as such, rejected arguments
/// with the whole definition of the tool.
pub proof fn law_refusals_tell_the_tool(refusal: Refusal, definition: &str, r: String)
    requires
        call_ensures(Refusal::message, (&refusal, definition), r),
    ensures
        refusal matches Refusal::UnknownTool { name } ==> r@ == "unknown tool: "@ + name@,
        refusal matches Refusal::RejectedArgs { name, violations } ==> r@.len()
            >= definition@.len() && r@.skip(r@.len() - definition@.len()) == definition@,
{
    match refusal {
        Refusal::RejectedArgs { name, violations } => {
            args::law_feedback_ends_with_the_definition(name@, definition@);
        },
        _ => {},
    }
}

/// A session is found where it was loaded, built where it is stored, and counts
/// as loaded from then on; looking one up loads no other.
pub proof fn law_sessions_are_loaded_once(
    manager: &mut SqliteSessionManager,
    id: &str,
    stored: bool,
    r: Lookup,
)
    requires
        call_ensures(SqliteSessionManager::load, (manager, id, stored), r),
    ensures
        r is Loaded <==> old(manager).loaded_ids().contains(id@),
        r is Stored <==> !old(manager).loaded_ids().contains(id@) && stored,
        r is Missing ==> final(manager).loaded_ids() == old(manager).loaded_ids(),
        r is Stored ==> final(manager).loaded_ids().contains(id@),
        forall|other: Seq<char>|
            other != id@ ==> (#[trigger] final(manager).loaded_ids().contains(other) == old(
                manager,
            ).loaded_ids().contains(other)),
{
    let before = old(manager).loaded_ids();
    let after = final(manager).loaded_ids();
    if r is Stored {
        assert(after[before.len() as int] == id@);
        assert forall|other: Seq<char>| other != id@ implies (#[trigger] after.contains(other)
            == before.contains(other)) by {
            if before.contains(other) {
                let i = choose|i: int| 0 <= i < before.len() && before[i] == other;
                assert(after[i] == other);
            }
            if after.contains(other) {
                let i = choose|i: int| 0 <= i < after.len() && after[i] == other;
                assert(before[i] == other);
            }
        }
    }
}

} // verus!
