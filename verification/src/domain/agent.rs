//! The agent loop: ask the model, run the calls it asks for, ask again.
//!
//! The loop performs nothing itself: it says what is to be done next and takes
//! the outcome.

use vstd::prelude::*;
use vstd::string::*;

use crate::domain::llm;
use crate::domain::llm::{AnswerView, FunctionView, LlmItem, LlmItemView, LlmResponse, MessageRole,
    ToolCall};
use crate::domain::tool::{Tool, ToolRegistry};
use crate::text;

verus! {

/// How many times the loop asks the model at most.
pub const MAX_ITERATIONS: usize = 16;

/// What the loop is waiting for.
pub enum AgentPhase {
    /// The model's next answer.
    Asking,
    /// The outcome of the call at an index.
    Running(int),
    /// Nothing: the loop has ended.
    Done,
}

/// The view of an [`AgentRunner`].
pub struct AgentView {
    /// What the next request sends.
    pub conversation: Seq<LlmItemView>,
    /// What the loop has added.
    pub new_items: Seq<LlmItemView>,
    /// How many answers came.
    pub rounds: nat,
    /// The calls of the latest answer.
    pub calls: Seq<FunctionView>,
    pub phase: AgentPhase,
}

/// What is to be done next.
pub enum AgentStepView {
    /// Send the conversation to the model.
    Ask,
    /// Run this call.
    Run(FunctionView),
    /// The loop has ended: these items are new.
    Return(Seq<LlmItemView>),
    /// The loop gives up.
    Fail(Seq<char>),
}

/// The loop before its first request.
pub open spec fn began(items: Seq<LlmItemView>) -> AgentView {
    AgentView {
        conversation: items,
        new_items: Seq::empty(),
        rounds: 0,
        calls: Seq::empty(),
        phase: AgentPhase::Asking,
    }
}

/// The loop with the call at an index recorded and running.
pub open spec fn calling(a: AgentView, i: int) -> AgentView {
    let item = LlmItemView::FunctionCall(a.calls[i]);
    AgentView {
        conversation: a.conversation.push(item),
        new_items: a.new_items.push(item),
        phase: AgentPhase::Running(i),
        ..a
    }
}

/// The step that an answer leads to.
pub open spec fn on_answer(a: AgentView, answer: AnswerView) -> (AgentView, AgentStepView) {
    let b = AgentView { rounds: a.rounds + 1, calls: answer.tool_calls, ..a };
    if answer.tool_calls.len() > 0 {
        (calling(b, 0), AgentStepView::Run(answer.tool_calls[0]))
    } else {
        let items = match answer.content {
            Some(content) => a.new_items.push(
                LlmItemView::Message { role: MessageRole::Assistant, content },
            ),
            None => a.new_items,
        };
        (
            AgentView { new_items: items, phase: AgentPhase::Done, ..b },
            AgentStepView::Return(items),
        )
    }
}

/// The message of a loop that gives up.
pub open spec fn exceeded_text() -> Seq<char> {
    "agent loop exceeded max iterations (16)"@
}

/// The step that the outcome of a call leads to.
pub open spec fn on_outcome(a: AgentView, outcome: Result<Seq<char>, Seq<char>>) -> (
    AgentView,
    AgentStepView,
) {
    let i = a.phase->Running_0;
    let item = LlmItemView::FunctionCallOutput {
        call_id: a.calls[i].id,
        output: match outcome {
            Ok(s) => s,
            Err(e) => "tool error: "@ + e,
        },
    };
    let b = AgentView {
        conversation: a.conversation.push(item),
        new_items: a.new_items.push(item),
        ..a
    };
    if i + 1 < a.calls.len() {
        (calling(b, i + 1), AgentStepView::Run(a.calls[i + 1]))
    } else if a.rounds < MAX_ITERATIONS {
        (AgentView { phase: AgentPhase::Asking, ..b }, AgentStepView::Ask)
    } else {
        (AgentView { phase: AgentPhase::Done, ..b }, AgentStepView::Fail(exceeded_text()))
    }
}

/// What holds of every loop.
pub open spec fn valid(a: AgentView) -> bool {
    &&& a.rounds <= MAX_ITERATIONS
    &&& a.phase is Asking ==> a.rounds < MAX_ITERATIONS
    &&& a.phase matches AgentPhase::Running(i) ==> 0 <= i < a.calls.len()
}

/// What is to be done next.
#[derive(Debug)]
pub enum AgentStep {
    Ask,
    Run(ToolCall),
    Return(Vec<LlmItem>),
    Fail(String),
}

impl View for AgentStep {
    type V = AgentStepView;

    open spec fn view(&self) -> AgentStepView {
        match *self {
            AgentStep::Ask => AgentStepView::Ask,
            AgentStep::Run(call) => AgentStepView::Run(call@),
            AgentStep::Return(items) => AgentStepView::Return(llm::llm_item_views(items@)),
            AgentStep::Fail(message) => AgentStepView::Fail(message@),
        }
    }
}

/// An agent loop in progress.
pub struct AgentRunner {
    conversation: Vec<LlmItem>,
    new_items: Vec<LlmItem>,
    rounds: usize,
    calls: Vec<ToolCall>,
    /// The index of the call that runs; the number of calls when none does.
    running: usize,
    over: bool,
}

impl View for AgentRunner {
    type V = AgentView;

    closed spec fn view(&self) -> AgentView {
        AgentView {
            conversation: llm::llm_item_views(self.conversation@),
            new_items: llm::llm_item_views(self.new_items@),
            rounds: self.rounds as nat,
            calls: llm::function_views(self.calls@),
            phase: if self.over {
                AgentPhase::Done
            } else if self.running < self.calls@.len() {
                AgentPhase::Running(self.running as int)
            } else {
                AgentPhase::Asking
            },
        }
    }
}

fn push_item(items: &mut Vec<LlmItem>, item: LlmItem)
    ensures
        llm::llm_item_views(final(items)@) == llm::llm_item_views(old(items)@).push(item@),
{
    let ghost before = llm::llm_item_views(items@);
    items.push(item);
    assert(llm::llm_item_views(items@) =~= before.push(item@));
}

fn copy_items(items: &Vec<LlmItem>) -> (r: Vec<LlmItem>)
    ensures
        r@ == items@,
{
    let mut r: Vec<LlmItem> = Vec::new();
    let mut i: usize = 0;
    while i < items.len()
        invariant
            i <= items@.len(),
            r@ == items@.take(i as int),
        decreases items@.len() - i,
    {
        r.push(items[i].clone());
        i = i + 1;
        assert(r@ =~= items@.take(i as int));
    }
    assert(items@.take(i as int) =~= items@);
    r
}

impl AgentRunner {
    pub closed spec fn wf(&self) -> bool {
        &&& self.running <= self.calls@.len()
        &&& valid(self@)
    }

    /// Begins a loop over a dialogue; the first thing to do is to ask.
    pub fn new(items: Vec<LlmItem>) -> (r: Self)
        ensures
            r.wf(),
            r@ == began(llm::llm_item_views(items@)),
    {
        let r = AgentRunner {
            conversation: items,
            new_items: Vec::new(),
            rounds: 0,
            calls: Vec::new(),
            running: 0,
            over: false,
        };
        assert(r@.new_items =~= Seq::empty());
        assert(r@.calls =~= Seq::empty());
        r
    }

    /// What the next request sends.
    pub fn conversation(&self) -> (r: &Vec<LlmItem>)
        ensures
            llm::llm_item_views(r@) == self@.conversation,
    {
        &self.conversation
    }

    fn call(&mut self, i: usize) -> (r: AgentStep)
        requires
            i < old(self).calls@.len(),
            !old(self).over,
        ensures
            final(self)@ == calling(old(self)@, i as int),
            final(self).running == i,
            final(self).calls == old(self).calls,
            r@ == AgentStepView::Run(old(self)@.calls[i as int]),
    {
        let call = self.calls[i].clone();
        push_item(&mut self.conversation, LlmItem::FunctionCall(call.clone()));
        push_item(&mut self.new_items, LlmItem::FunctionCall(call.clone()));
        self.running = i;
        AgentStep::Run(call)
    }

    /// Takes the answer of the model.
    pub fn answered(&mut self, answer: LlmResponse) -> (r: AgentStep)
        requires
            old(self).wf(),
            old(self)@.phase is Asking,
        ensures
            final(self).wf(),
            (final(self)@, r@) == on_answer(old(self)@, answer@),
    {
        let ghost before = self@;
        self.rounds = self.rounds + 1;
        self.calls = answer.tool_calls;
        if self.calls.len() > 0 {
            self.running = self.calls.len();
            let step = self.call(0);
            assert(self@ == on_answer(before, answer@).0);
            step
        } else {
            self.running = 0;
            match answer.content {
                Some(content) => {
                    push_item(
                        &mut self.new_items,
                        LlmItem::Message { role: MessageRole::Assistant, content },
                    );
                },
                None => {},
            }
            self.over = true;
            assert(self@ == on_answer(before, answer@).0);
            AgentStep::Return(copy_items(&self.new_items))
        }
    }

    /// Takes the outcome of the call that runs.
    pub fn tool_done(&mut self, outcome: Result<String, String>) -> (r: AgentStep)
        requires
            old(self).wf(),
            old(self)@.phase is Running,
        ensures
            final(self).wf(),
            (final(self)@, r@) == on_outcome(old(self)@, text::outcome(outcome)),
    {
        let ghost before = self@;
        let ghost told = text::outcome(outcome);
        let i = self.running;
        let count = self.calls.len();
        let call = self.calls[i].clone();
        assert(before.calls[i as int] == call@);
        let output = match outcome {
            Ok(out) => out,
            Err(e) => "tool error: ".to_owned().concat(e.as_str()),
        };
        let item = LlmItem::FunctionCallOutput { call_id: call.id, output };
        push_item(&mut self.conversation, item.clone());
        push_item(&mut self.new_items, item);
        if i + 1 < count {
            let step = self.call(i + 1);
            assert(self@ == on_outcome(before, told).0);
            step
        } else if self.rounds < MAX_ITERATIONS {
            self.running = count;
            assert(self@ == on_outcome(before, told).0);
            AgentStep::Ask
        } else {
            self.over = true;
            assert(self@ == on_outcome(before, told).0);
            AgentStep::Fail("agent loop exceeded max iterations (16)".to_owned())
        }
    }
}

/// The tool that a call asks for, or the error that the call ends with.
pub fn find_tool<'a, T: Tool>(registry: &'a ToolRegistry<T>, call: &ToolCall) -> (r: Result<
    &'a T,
    String,
>)
    requires
        registry.wf(),
    ensures
        match r {
            Ok(t) => registry@.dom().contains(call.name@) && *t == registry@[call.name@],
            Err(e) => !registry@.dom().contains(call.name@) && e@ == "unknown tool: "@
                + call.name@,
        },
{
    match registry.get(call.name.as_str()) {
        Some(t) => Ok(t),
        None => Err("unknown tool: ".to_owned().concat(call.name.as_str())),
    }
}

// What every loop keeps ---------------------------------------------------------

/// Every function call is directly followed by its output.
pub open spec fn interleaved(items: Seq<LlmItemView>) -> bool {
    forall|i: int|
        0 <= i < items.len() ==> (#[trigger] items[i] matches LlmItemView::FunctionCall(call)
            ==> answered_by(items, i + 1, call.id))
}

/// The item at an index is the output of a call.
pub open spec fn answered_by(items: Seq<LlmItemView>, i: int, id: Seq<char>) -> bool {
    &&& 0 <= i < items.len()
    &&& items[i] matches LlmItemView::FunctionCallOutput { call_id, output }
    &&& call_id == id
}

/// What the loop has added is interleaved, but for the call that runs, which
/// is its last item; the conversation ends with what the loop has added, but
/// for a closing text.
pub open spec fn orderly(a: AgentView, given: Seq<LlmItemView>) -> bool {
    match a.phase {
        AgentPhase::Running(i) => {
            &&& a.new_items.len() > 0
            &&& interleaved(a.new_items.drop_last())
            &&& a.new_items.last() == LlmItemView::FunctionCall(a.calls[i])
            &&& a.conversation == given + a.new_items
        },
        AgentPhase::Asking => interleaved(a.new_items) && a.conversation == given + a.new_items,
        AgentPhase::Done => interleaved(a.new_items),
    }
}

/// A loop begins orderly.
pub proof fn law_loop_begins_orderly(given: Seq<LlmItemView>)
    ensures
        valid(began(given)),
        orderly(began(given), given),
{
    assert(given + Seq::<LlmItemView>::empty() =~= given);
}

/// A loop stays valid and orderly: it asks at most the admitted number of
/// times, and each function call that it records is directly followed by its
/// output before anything else is recorded.
pub proof fn law_loop_stays_orderly(
    a: AgentView,
    given: Seq<LlmItemView>,
    answer: AnswerView,
    outcome: Result<Seq<char>, Seq<char>>,
)
    requires
        valid(a),
        orderly(a, given),
    ensures
        a.phase is Asking ==> valid(on_answer(a, answer).0) && orderly(
            on_answer(a, answer).0,
            given,
        ),
        a.phase is Running ==> valid(on_outcome(a, outcome).0) && orderly(
            on_outcome(a, outcome).0,
            given,
        ),
{
    if a.phase is Asking {
        let b = on_answer(a, answer).0;
        if answer.tool_calls.len() > 0 {
            assert(b.new_items.drop_last() =~= a.new_items);
            assert(b.conversation =~= given + b.new_items);
        } else {
            assert forall|i: int| 0 <= i < b.new_items.len() implies (#[trigger] b.new_items[i]
                matches LlmItemView::FunctionCall(call) ==> answered_by(
                b.new_items,
                i + 1,
                call.id,
            )) by {
                if i < a.new_items.len() {
                    assert(a.new_items[i] == b.new_items[i]);
                }
            }
        }
    }
    if a.phase is Running {
        let i = a.phase->Running_0;
        let b = on_outcome(a, outcome).0;
        let n = a.new_items.len() as int;
        let both = b.new_items.take(n + 1);
        assert forall|k: int| 0 <= k < both.len() implies (#[trigger] both[k]
            matches LlmItemView::FunctionCall(call) ==> answered_by(both, k + 1, call.id)) by {
            assert(both[k] == b.new_items[k]);
            if k < n {
                assert(both[k] == a.new_items[k]);
                if k < n - 1 {
                    let head = a.new_items.drop_last();
                    assert(head[k] == a.new_items[k]);
                    if head[k] is FunctionCall {
                        assert(both[k + 1] == head[k + 1]);
                    }
                }
            }
        }
        assert(interleaved(both));
        if i + 1 < a.calls.len() {
            assert(b.new_items.drop_last() =~= both);
            assert(b.conversation =~= given + b.new_items);
        } else {
            assert(b.new_items =~= both);
            assert(b.conversation =~= given + b.new_items);
        }
    }
}

// What a loop is for ------------------------------------------------------------

/// The outcome of a call is recorded whole, under the id of the call that ran:
/// what it returned as it stands, a failure behind `tool error: `. It is sent
/// with the next request and is among the new items.
pub proof fn law_outcomes_are_recorded_whole(a: AgentView, i: int, s: Seq<char>)
    requires
        a.phase == AgentPhase::Running(i),
        0 <= i < a.calls.len(),
    ensures
        ({
            let item = LlmItemView::FunctionCallOutput { call_id: a.calls[i].id, output: s };
            let after = on_outcome(a, Ok(s)).0;
            &&& after.conversation.len() > a.conversation.len()
            &&& after.conversation.take(a.conversation.len() as int) == a.conversation
            &&& after.conversation[a.conversation.len() as int] == item
            &&& after.new_items.len() > a.new_items.len()
            &&& after.new_items.take(a.new_items.len() as int) == a.new_items
            &&& after.new_items[a.new_items.len() as int] == item
        }),
        ({
            let item = LlmItemView::FunctionCallOutput {
                call_id: a.calls[i].id,
                output: "tool error: "@ + s,
            };
            let after = on_outcome(a, Err(s)).0;
            &&& after.conversation.len() > a.conversation.len()
            &&& after.conversation.take(a.conversation.len() as int) == a.conversation
            &&& after.conversation[a.conversation.len() as int] == item
            &&& after.new_items.len() > a.new_items.len()
            &&& after.new_items.take(a.new_items.len() as int) == a.new_items
            &&& after.new_items[a.new_items.len() as int] == item
        }),
{
    let x = on_outcome(a, Ok(s)).0;
    let y = on_outcome(a, Err(s)).0;
    assert(x.conversation.take(a.conversation.len() as int) =~= a.conversation);
    assert(x.new_items.take(a.new_items.len() as int) =~= a.new_items);
    assert(y.conversation.take(a.conversation.len() as int) =~= a.conversation);
    assert(y.new_items.take(a.new_items.len() as int) =~= a.new_items);
}

/// After an outcome the next call of the answer is recorded and runs; after the
/// last one the model is asked again, unless it was asked sixteen times: then
/// the loop gives up.
pub proof fn law_outcomes_lead_on(
    a: AgentView,
    i: int,
    outcome: Result<Seq<char>, Seq<char>>,
)
    requires
        a.phase == AgentPhase::Running(i),
        0 <= i < a.calls.len(),
    ensures
        ({
            let (after, step) = on_outcome(a, outcome);
            &&& i + 1 < a.calls.len() ==> {
                &&& step == AgentStepView::Run(a.calls[i + 1])
                &&& after.phase == AgentPhase::Running(i + 1)
                &&& after.conversation.last() == LlmItemView::FunctionCall(a.calls[i + 1])
                &&& after.new_items.last() == LlmItemView::FunctionCall(a.calls[i + 1])
                &&& after.conversation.len() == a.conversation.len() + 2
                &&& after.new_items.len() == a.new_items.len() + 2
            }
            &&& i + 1 == a.calls.len() ==> after.conversation.len() == a.conversation.len() + 1
                && after.new_items.len() == a.new_items.len() + 1
            &&& i + 1 == a.calls.len() && a.rounds < 16 ==> step is Ask && after.phase is Asking
            &&& i + 1 == a.calls.len() && a.rounds >= 16 ==> step is Fail && after.phase is Done
            &&& after.rounds == a.rounds && after.calls == a.calls
        }),
{
}

/// An answer with calls records and runs the first of them; one without ends
/// the loop, with the whole of its text as the last new item.
pub proof fn law_answers_lead_on(a: AgentView, answer: AnswerView)
    ensures
        ({
            let (after, step) = on_answer(a, answer);
            &&& after.rounds == a.rounds + 1
            &&& after.calls == answer.tool_calls
            &&& answer.tool_calls.len() > 0 ==> {
                let item = LlmItemView::FunctionCall(answer.tool_calls[0]);
                &&& step == AgentStepView::Run(answer.tool_calls[0])
                &&& after.phase == AgentPhase::Running(0)
                &&& after.conversation == a.conversation.push(item)
                &&& after.new_items == a.new_items.push(item)
            }
            &&& answer.tool_calls.len() == 0 ==> {
                &&& after.phase is Done
                &&& step == AgentStepView::Return(after.new_items)
                &&& answer.content matches Some(content) ==> after.new_items == a.new_items.push(
                    LlmItemView::Message { role: MessageRole::Assistant, content },
                )
                &&& answer.content is None ==> after.new_items == a.new_items
            }
        }),
{
}

/// A loop begins with the given dialogue, whole, and asks first.
pub proof fn law_loops_begin_with_the_dialogue(items: Seq<LlmItemView>)
    ensures
        began(items).conversation == items,
        began(items).new_items.len() == 0,
        began(items).rounds == 0,
        began(items).calls.len() == 0,
        began(items).phase is Asking,
{
}

/// The view of a step shows what it asks for.
pub proof fn law_agent_steps_show_what_is_next(step: AgentStep, i: int)
    ensures
        match step {
            AgentStep::Ask => step@ is Ask,
            AgentStep::Run(call) => step@ == AgentStepView::Run(call@),
            AgentStep::Return(items) => {
                &&& step@ is Return
                &&& step@->Return_0.len() == items@.len()
                &&& 0 <= i < items@.len() ==> step@->Return_0[i] == items@[i]@
            },
            AgentStep::Fail(message) => step@ == AgentStepView::Fail(message@),
        },
{
}

/// A call is run by the tool of its own name, and refused by name exactly where
/// there is none.
pub proof fn law_calls_find_their_tool<'a, T: Tool>(
    registry: &'a ToolRegistry<T>,
    call: ToolCall,
    r: Result<&'a T, String>,
)
    requires
        registry.wf(),
        call_ensures(find_tool::<T>, (registry, &call), r),
    ensures
        r is Ok <==> registry@.dom().contains(call.name@),
        r matches Ok(t) ==> *t == registry@[call.name@],
        r matches Err(e) ==> e@ == "unknown tool: "@ + call.name@,
{
}

/// When the call that runs ends, what it returned is recorded whole, under the
/// id of the call, in the conversation and among the new items.
pub proof fn law_ended_calls_are_recorded_whole(
    runner: &mut AgentRunner,
    outcome: Result<String, String>,
    r: AgentStep,
)
    requires
        old(runner).wf(),
        valid(old(runner)@),
        old(runner)@.phase is Running,
        call_ensures(AgentRunner::tool_done, (runner, outcome), r),
    ensures
        ({
            let before = old(runner)@;
            let item = LlmItemView::FunctionCallOutput {
                call_id: before.calls[before.phase->Running_0].id,
                output: match outcome {
                    Ok(s) => s@,
                    Err(e) => "tool error: "@ + e@,
                },
            };
            &&& final(runner)@.conversation[before.conversation.len() as int] == item
            &&& final(runner)@.new_items[before.new_items.len() as int] == item
        }),
{
    let before = old(runner)@;
    let i = before.phase->Running_0;
    assert((final(runner)@, r@) == on_outcome(before, text::outcome(outcome)));
    match outcome {
        Ok(s) => {
            law_outcomes_are_recorded_whole(before, i, s@);
        },
        Err(e) => {
            law_outcomes_are_recorded_whole(before, i, e@);
        },
    }
}

} // verus!
