//! One turn of a session: a user message goes in, the model is asked, its
//! tool calls are run, and every item is stored.
//!
//! The turn itself neither asks nor stores nor runs anything: it says what is
//! to be done next and takes the outcome.

use vstd::prelude::*;
use vstd::string::*;

use crate::domain::session;
use crate::domain::session::{CallView, ItemView, MessageRole, SessionItem, ToolCall, ToolCallKind};
use crate::llm::responses;
use crate::llm::responses::{LlmResponse, ResponseView};
use crate::text;

verus! {

/// How many times a turn asks the model at most.
pub const MAX_ITERATIONS: usize = 16;

/// The name of the tool that holds a conversation open.
pub const WAIT_TOOL_NAME: &'static str = "wait";

/// What a turn is waiting for.
pub enum Phase {
    /// The model's next answer.
    Asking,
    /// The outcome of the tool call at an index.
    Running(int),
    /// Nothing: the turn is over.
    Done,
}

/// The view of a [`Turn`].
pub struct TurnView {
    /// What was stored before the turn.
    pub history: Seq<ItemView>,
    /// What the next request sends: the history and everything since.
    pub context: Seq<ItemView>,
    /// The user message that opened the turn.
    pub user: Seq<char>,
    /// The last row that was stored before the turn.
    pub start_row: i64,
    /// The id of the latest answer that had one.
    pub response_id: Option<Seq<char>>,
    /// How many answers came.
    pub rounds: nat,
    /// The tool calls of the latest answer.
    pub calls: Seq<CallView>,
    pub phase: Phase,
}

/// What is to be done after a step, beyond storing its items.
pub enum NextView {
    /// Send the context to the model.
    Ask,
    /// Run this tool call.
    Run(CallView),
    /// The turn is over: keep the response id.
    Finish { response_id: Option<Seq<char>> },
    /// The turn is held open: delete what was stored after the row, store
    /// these items instead, keep the response id.
    Hold { after_row: i64, items: Seq<ItemView>, response_id: Option<Seq<char>> },
}

/// The outcome of a step.
pub struct StepView {
    /// The items to store, in order, before anything else.
    pub persist: Seq<ItemView>,
    pub next: NextView,
}

/// The item of a user message.
pub open spec fn user_item(content: Seq<char>) -> ItemView {
    ItemView::Message { role: MessageRole::User, content }
}

/// The first index from `from` on that holds a function call, else the length.
pub open spec fn next_function(calls: Seq<CallView>, from: int) -> int
    decreases calls.len() - from,
{
    if from < 0 || from >= calls.len() {
        calls.len() as int
    } else if calls[from].kind is FunctionCall {
        from
    } else {
        next_function(calls, from + 1)
    }
}

/// Whether a call asks to hold the conversation open.
pub open spec fn asks_to_wait(call: CallView) -> bool {
    call.kind is FunctionCall && call.name == Some(WAIT_TOOL_NAME@)
}

/// What a tool call item records of each call.
pub open spec fn call_items(calls: Seq<CallView>) -> Seq<ItemView> {
    calls.map_values(|c: CallView| ItemView::ToolCall(c))
}

/// The items that an answer adds whatever follows: its reasoning, then all its
/// calls.
pub open spec fn answer_items(answer: ResponseView) -> Seq<ItemView> {
    let reasoning = match answer.reasoning {
        Some(content) => seq![ItemView::Reasoning { content }],
        None => Seq::empty(),
    };
    reasoning + call_items(answer.tool_calls)
}

/// The item of the model's closing text, where there is one.
pub open spec fn closing_items(answer: ResponseView) -> Seq<ItemView> {
    match answer.content {
        Some(content) => seq![ItemView::Message { role: MessageRole::Assistant, content }],
        None => Seq::empty(),
    }
}

/// The text that a tool's outcome is recorded as.
pub open spec fn outcome_text(outcome: Result<Seq<char>, Seq<char>>) -> Seq<char> {
    match outcome {
        Ok(output) => output,
        Err(e) => "tool error: "@ + e,
    }
}

/// The turn after a user message came in.
pub open spec fn started(
    history: Seq<ItemView>,
    content: Seq<char>,
    start_row: i64,
    response_id: Option<Seq<char>>,
) -> TurnView {
    TurnView {
        history,
        context: history.push(user_item(content)),
        user: content,
        start_row,
        response_id,
        rounds: 0,
        calls: Seq::empty(),
        phase: Phase::Asking,
    }
}

/// The id to keep after an answer.
pub open spec fn latest_id(before: Option<Seq<char>>, answer: ResponseView) -> Option<Seq<char>> {
    if answer.id is Some {
        answer.id
    } else {
        before
    }
}

/// The step that an answer of the model leads to. Only function calls force
/// another request: the text of an answer without any closes the turn.
pub open spec fn after_answer(t: TurnView, answer: ResponseView) -> (TurnView, StepView) {
    let k = next_function(answer.tool_calls, 0);
    let id = latest_id(t.response_id, answer);
    let items = answer_items(answer);
    if k < answer.tool_calls.len() {
        (
            TurnView {
                context: t.context + items,
                response_id: id,
                rounds: t.rounds + 1,
                calls: answer.tool_calls,
                phase: Phase::Running(k),
                ..t
            },
            StepView { persist: items, next: NextView::Run(answer.tool_calls[k]) },
        )
    } else {
        (
            TurnView {
                context: t.context + (items + closing_items(answer)),
                response_id: id,
                rounds: t.rounds + 1,
                calls: answer.tool_calls,
                phase: Phase::Done,
                ..t
            },
            StepView {
                persist: items + closing_items(answer),
                next: NextView::Finish { response_id: id },
            },
        )
    }
}

/// The step that the outcome of a tool call leads to: the next function call,
/// the next request, the end after the last admitted request, or, on a
/// successful call to wait, the held turn.
pub open spec fn after_tool(t: TurnView, outcome: Result<Seq<char>, Seq<char>>) -> (
    TurnView,
    StepView,
) {
    let i = t.phase->Running_0;
    let call = t.calls[i];
    let output = ItemView::ToolCallOutput { call_id: call.id, output: outcome_text(outcome) };
    let recorded = TurnView { context: t.context.push(output), ..t };
    let k = next_function(t.calls, i + 1);
    if asks_to_wait(call) && outcome is Ok {
        (
            TurnView { phase: Phase::Done, ..recorded },
            StepView {
                persist: seq![output],
                next: NextView::Hold {
                    after_row: t.start_row,
                    items: seq![
                        user_item(t.user),
                        ItemView::Wait { arguments: responses::text_or_empty(call.arguments) },
                    ],
                    response_id: t.response_id,
                },
            },
        )
    } else if k < t.calls.len() {
        (
            TurnView { phase: Phase::Running(k), ..recorded },
            StepView { persist: seq![output], next: NextView::Run(t.calls[k]) },
        )
    } else if t.rounds < MAX_ITERATIONS {
        (
            TurnView { phase: Phase::Asking, ..recorded },
            StepView { persist: seq![output], next: NextView::Ask },
        )
    } else {
        (
            TurnView { phase: Phase::Done, ..recorded },
            StepView {
                persist: seq![output],
                next: NextView::Finish { response_id: t.response_id },
            },
        )
    }
}

/// What is to be done after a step, beyond storing its items.
#[derive(Debug, PartialEq)]
pub enum Next {
    Ask,
    Run(ToolCall),
    Finish { response_id: Option<String> },
    Hold { after_row: i64, items: Vec<SessionItem>, response_id: Option<String> },
}

impl View for Next {
    type V = NextView;

    open spec fn view(&self) -> NextView {
        match *self {
            Next::Ask => NextView::Ask,
            Next::Run(call) => NextView::Run(call@),
            Next::Finish { response_id } => NextView::Finish {
                response_id: text::opt_text(response_id),
            },
            Next::Hold { after_row, items, response_id } => NextView::Hold {
                after_row,
                items: session::item_views(items@),
                response_id: text::opt_text(response_id),
            },
        }
    }
}

/// The outcome of a step: items to store first, then what to do.
#[derive(Debug, PartialEq)]
pub struct Step {
    pub persist: Vec<SessionItem>,
    pub next: Next,
}

impl View for Step {
    type V = StepView;

    open spec fn view(&self) -> StepView {
        StepView { persist: session::item_views(self.persist@), next: self.next@ }
    }
}

/// A turn in progress.
pub struct Turn {
    items: Vec<SessionItem>,
    user: String,
    start_row: i64,
    response_id: Option<String>,
    rounds: usize,
    calls: Vec<ToolCall>,
    /// The index of the call that runs; the number of calls when none does.
    running: usize,
    over: bool,
    history: Ghost<Seq<ItemView>>,
}

impl View for Turn {
    type V = TurnView;

    closed spec fn view(&self) -> TurnView {
        TurnView {
            history: self.history@,
            context: session::item_views(self.items@),
            user: self.user@,
            start_row: self.start_row,
            response_id: text::opt_text(self.response_id),
            rounds: self.rounds as nat,
            calls: session::call_views(self.calls@),
            phase: if self.over {
                Phase::Done
            } else if self.running < self.calls@.len() {
                Phase::Running(self.running as int)
            } else {
                Phase::Asking
            },
        }
    }
}

/// What holds of every turn: the model was asked at most the admitted number
/// of times, fewer while it is to be asked again; the call that runs is a
/// function call; the context begins with the history and the user message.
pub open spec fn valid(t: TurnView) -> bool {
    &&& t.rounds <= MAX_ITERATIONS
    &&& t.phase is Asking ==> t.rounds < MAX_ITERATIONS
    &&& t.phase matches Phase::Running(i) ==> 0 <= i < t.calls.len() && t.calls[i].kind is FunctionCall
    &&& t.context.len() > t.history.len()
    &&& t.context.take(t.history.len() as int) == t.history
    &&& t.context[t.history.len() as int] == user_item(t.user)
}

fn find_function(calls: &Vec<ToolCall>, from: usize) -> (r: usize)
    requires
        from <= calls@.len(),
    ensures
        r == next_function(session::call_views(calls@), from as int),
        from <= r <= calls@.len(),
        r < calls@.len() ==> calls@[r as int].kind is FunctionCall,
{
    let mut i = from;
    let ghost views = session::call_views(calls@);
    while i < calls.len()
        invariant
            from <= i <= calls@.len(),
            views == session::call_views(calls@),
            next_function(views, from as int) == next_function(views, i as int),
        decreases calls@.len() - i,
    {
        assert(views[i as int] == calls@[i as int]@);
        match calls[i].kind {
            ToolCallKind::FunctionCall => {
                return i;
            },
            ToolCallKind::WebSearchCall => {},
        }
        i = i + 1;
    }
    i
}

fn extend_items(items: &mut Vec<SessionItem>, more: &Vec<SessionItem>)
    ensures
        final(items)@ == old(items)@ + more@,
{
    let ghost start = items@;
    let mut i: usize = 0;
    while i < more.len()
        invariant
            i <= more@.len(),
            items@ == start + more@.take(i as int),
        decreases more@.len() - i,
    {
        items.push(more[i].clone());
        i = i + 1;
        assert(items@ =~= start + more@.take(i as int));
    }
    assert(more@.take(i as int) =~= more@);
}

fn recorded_answer(answer: &LlmResponse) -> (r: Vec<SessionItem>)
    ensures
        session::item_views(r@) == answer_items(answer@),
{
    let mut r: Vec<SessionItem> = Vec::new();
    match &answer.reasoning {
        Some(content) => {
            r.push(SessionItem::Reasoning { content: content.clone() });
        },
        None => {},
    }
    let ghost first = session::item_views(r@);
    let calls = &answer.tool_calls;
    let mut i: usize = 0;
    assert(first + call_items(session::call_views(calls@.take(0))) =~= first);
    while i < calls.len()
        invariant
            i <= calls@.len(),
            session::item_views(r@) == first + call_items(
                session::call_views(calls@.take(i as int)),
            ),
        decreases calls@.len() - i,
    {
        let ghost before = session::item_views(r@);
        let call = SessionItem::ToolCall(calls[i].clone());
        let ghost shown = call@;
        r.push(call);
        i = i + 1;
        proof {
            assert(session::item_views(r@) =~= before.push(shown));
            assert(call_items(session::call_views(calls@.take(i as int))) =~= call_items(
                session::call_views(calls@.take(i - 1)),
            ).push(shown));
            assert(first + call_items(session::call_views(calls@.take(i as int)))
                =~= before.push(shown));
        }
    }
    assert(calls@.take(i as int) =~= calls@);
    assert(session::item_views(r@) =~= answer_items(answer@));
    r
}

proof fn lemma_views_extend(a: Seq<SessionItem>, b: Seq<SessionItem>)
    ensures
        session::item_views(a + b) == session::item_views(a) + session::item_views(b),
{
    assert(session::item_views(a + b) =~= session::item_views(a) + session::item_views(b));
}

impl Turn {
    pub closed spec fn wf(&self) -> bool {
        &&& self.running <= self.calls@.len()
        &&& valid(self@)
    }

    /// Begins a turn: `items` is what the session holds, `start_row` the last
    /// stored row, `response_id` the kept id. The first step stores the user
    /// message and asks the model.
    pub fn begin(
        items: Vec<SessionItem>,
        content: String,
        start_row: i64,
        response_id: Option<String>,
    ) -> (r: (Turn, Step))
        ensures
            r.0.wf(),
            r.0@ == started(
                session::item_views(items@),
                content@,
                start_row,
                text::opt_text(response_id),
            ),
            r.1@ == (StepView { persist: seq![user_item(content@)], next: NextView::Ask }),
    {
        let ghost history = session::item_views(items@);
        let mut items = items;
        items.push(SessionItem::Message { role: MessageRole::User, content: content.clone() });
        let ghost context = session::item_views(items@);
        let turn = Turn {
            items,
            user: content,
            start_row,
            response_id,
            rounds: 0,
            calls: Vec::new(),
            running: 0,
            over: false,
            history: Ghost(history),
        };
        let mut persist: Vec<SessionItem> = Vec::new();
        persist.push(
            SessionItem::Message { role: MessageRole::User, content: turn.user.clone() },
        );
        proof {
            assert(context =~= history.push(user_item(content@)));
            assert(context.take(history.len() as int) =~= history);
            assert(session::item_views(persist@) =~= seq![user_item(content@)]);
            assert(turn@.calls =~= Seq::empty());
        }
        (turn, Step { persist, next: Next::Ask })
    }

    /// What the next request sends.
    pub fn context(&self) -> (r: &Vec<SessionItem>)
        ensures
            session::item_views(r@) == self@.context,
    {
        &self.items
    }

    /// Takes the answer of the model.
    pub fn answered(&mut self, answer: LlmResponse) -> (r: Step)
        requires
            old(self).wf(),
            old(self)@.phase is Asking,
        ensures
            final(self).wf(),
            (final(self)@, r@) == after_answer(old(self)@, answer@),
    {
        let ghost before = self@;
        let ghost told = answer@;
        if answer.id.is_some() {
            self.response_id = session::copy_opt(&answer.id);
        }
        self.rounds = self.rounds + 1;
        let mut persist = recorded_answer(&answer);
        let ghost items = session::item_views(persist@);
        let k = find_function(&answer.tool_calls, 0);
        if k < answer.tool_calls.len() {
            extend_items(&mut self.items, &persist);
            let call = answer.tool_calls[k].clone();
            self.running = k;
            self.calls = answer.tool_calls;
            proof {
                lemma_views_extend(old(self).items@, persist@);
                assert(self@.context.take(before.history.len() as int) =~= before.context.take(
                    before.history.len() as int,
                ));
                assert(self@ == after_answer(before, told).0);
            }
            Step { persist, next: Next::Run(call) }
        } else {
            match answer.content {
                Some(content) => {
                    persist.push(SessionItem::Message { role: MessageRole::Assistant, content });
                },
                None => {},
            }
            proof {
                assert(session::item_views(persist@) =~= items + closing_items(told));
            }
            extend_items(&mut self.items, &persist);
            self.running = k;
            self.calls = answer.tool_calls;
            self.over = true;
            proof {
                lemma_views_extend(old(self).items@, persist@);
                assert(self@.context.take(before.history.len() as int) =~= before.context.take(
                    before.history.len() as int,
                ));
                assert(self@ == after_answer(before, told).0);
            }
            Step { persist, next: Next::Finish { response_id: session::copy_opt(&self.response_id) } }
        }
    }

    /// Takes the outcome of the tool call that runs.
    pub fn tool_done(&mut self, outcome: Result<String, String>) -> (r: Step)
        requires
            old(self).wf(),
            old(self)@.phase is Running,
        ensures
            final(self).wf(),
            (final(self)@, r@) == after_tool(old(self)@, text::outcome(outcome)),
    {
        let ghost before = self@;
        let ghost told = text::outcome(outcome);
        let i = self.running;
        assert(before.phase == Phase::Running(i as int));
        let count = self.calls.len();
        let call = self.calls[i].clone();
        assert(before.calls[i as int] == call@);
        assert(i < count);
        let succeeded = outcome.is_ok();
        let output = match outcome {
            Ok(out) => out,
            Err(e) => "tool error: ".to_owned().concat(e.as_str()),
        };
        let item = SessionItem::ToolCallOutput { call_id: call.id.clone(), output };
        let ghost shown = item@;
        let mut persist: Vec<SessionItem> = Vec::new();
        persist.push(item.clone());
        self.items.push(item);
        proof {
            assert(session::item_views(persist@) =~= seq![shown]);
            assert(self@.context =~= before.context.push(shown));
            assert(self@.context.take(before.history.len() as int) =~= before.context.take(
                before.history.len() as int,
            ));
        }
        if is_wait_call(&call) && succeeded {
            self.over = true;
            let mut items: Vec<SessionItem> = Vec::new();
            items.push(
                SessionItem::Message { role: MessageRole::User, content: self.user.clone() },
            );
            let arguments = match call.arguments {
                Some(a) => a,
                None => String::new(),
            };
            let ghost given = arguments@;
            items.push(SessionItem::Wait { arguments });
            proof {
                assert(session::item_views(items@) =~= seq![
                    user_item(before.user),
                    ItemView::Wait { arguments: given },
                ]);
                assert(self@ == after_tool(before, told).0);
            }
            return Step {
                persist,
                next: Next::Hold {
                    after_row: self.start_row,
                    items,
                    response_id: session::copy_opt(&self.response_id),
                },
            };
        }
        let k = find_function(&self.calls, i + 1);
        self.running = k;
        if k < self.calls.len() {
            let next = self.calls[k].clone();
            proof {
                assert(self@ == after_tool(before, told).0);
            }
            Step { persist, next: Next::Run(next) }
        } else if self.rounds < MAX_ITERATIONS {
            proof {
                assert(self@ == after_tool(before, told).0);
            }
            Step { persist, next: Next::Ask }
        } else {
            self.over = true;
            proof {
                assert(self@ == after_tool(before, told).0);
            }
            Step { persist, next: Next::Finish { response_id: session::copy_opt(&self.response_id) } }
        }
    }
}

/// Whether a call asks to hold the conversation open.
pub fn is_wait_call(call: &ToolCall) -> (r: bool)
    ensures
        r == asks_to_wait(call@),
{
    match call.kind {
        ToolCallKind::FunctionCall => match &call.name {
            Some(name) => text::str_eq(name.as_str(), WAIT_TOOL_NAME),
            None => false,
        },
        ToolCallKind::WebSearchCall => false,
    }
}

// What every turn keeps ----------------------------------------------------------

/// What is stored after a step, when `kept` items were stored before the turn.
pub open spec fn stored_after(stored: Seq<ItemView>, kept: int, step: StepView) -> Seq<ItemView> {
    let appended = stored + step.persist;
    match step.next {
        NextView::Hold { after_row, items, response_id } => appended.take(kept) + items,
        _ => appended,
    }
}

/// Whatever the model answers, the store holds exactly the context: a later
/// turn reads back what this turn sent.
pub proof fn law_answer_is_stored_as_sent(t: TurnView, answer: ResponseView)
    requires
        valid(t),
        t.phase is Asking,
    ensures
        ({
            let (next, step) = after_answer(t, answer);
            stored_after(t.context, t.history.len() as int, step) == next.context
        }),
{
}

/// Whatever a tool gives, the store holds exactly the context; a held turn
/// leaves the earlier dialogue, the user message and the wait marker, and
/// nothing else of the turn.
pub proof fn law_outcome_is_stored_as_sent(t: TurnView, outcome: Result<Seq<char>, Seq<char>>)
    requires
        valid(t),
        t.phase is Running,
    ensures
        ({
            let (next, step) = after_tool(t, outcome);
            let stored = stored_after(t.context, t.history.len() as int, step);
            let call = t.calls[t.phase->Running_0];
            &&& step.next is Hold <==> asks_to_wait(call) && outcome is Ok
            &&& step.next !is Hold ==> stored == next.context
            &&& step.next is Hold ==> stored == t.history + seq![
                user_item(t.user),
                ItemView::Wait { arguments: responses::text_or_empty(call.arguments) },
            ]
        }),
{
    let (next, step) = after_tool(t, outcome);
    assert(t.context.push(step.persist[0]) =~= t.context + step.persist);
    assert((t.context + step.persist).take(t.history.len() as int) =~= t.context.take(
        t.history.len() as int,
    ));
}

/// A turn stays valid from step to step: in particular the model is asked at
/// most the admitted number of times, and only function calls are run.
pub proof fn law_turn_stays_valid(
    t: TurnView,
    answer: ResponseView,
    outcome: Result<Seq<char>, Seq<char>>,
)
    requires
        valid(t),
    ensures
        t.phase is Asking ==> valid(after_answer(t, answer).0),
        t.phase is Running ==> valid(after_tool(t, outcome).0),
        t.phase is Asking ==> (after_answer(t, answer).1.next matches NextView::Run(c)
            ==> c.kind is FunctionCall),
        t.phase is Running ==> (after_tool(t, outcome).1.next matches NextView::Run(c)
            ==> c.kind is FunctionCall),
{
    let n = t.history.len() as int;
    if t.phase is Asking {
        lemma_next_function(answer.tool_calls, 0);
        assert(after_answer(t, answer).0.context.take(n) =~= t.context.take(n));
    }
    if t.phase is Running {
        lemma_next_function(t.calls, t.phase->Running_0 + 1);
        assert(after_tool(t, outcome).0.context.take(n) =~= t.context.take(n));
    }
}

proof fn lemma_next_function(calls: Seq<CallView>, from: int)
    requires
        0 <= from <= calls.len(),
    ensures
        from <= next_function(calls, from) <= calls.len(),
        next_function(calls, from) < calls.len() ==> calls[next_function(calls, from)].kind
            is FunctionCall,
    decreases calls.len() - from,
{
    if from < calls.len() && !(calls[from].kind is FunctionCall) {
        lemma_next_function(calls, from + 1);
    }
}

/// How much of a turn is left at most: requests, then calls of the latest
/// answer.
pub open spec fn requests_left(t: TurnView) -> int {
    MAX_ITERATIONS - t.rounds
}

/// The calls of the latest answer that are not yet done with.
pub open spec fn calls_left(t: TurnView) -> int {
    match t.phase {
        Phase::Running(i) => t.calls.len() - i,
        _ => 0,
    }
}

/// Every turn ends: each step uses up a request or, between requests, a call.
pub proof fn law_turn_ends(
    t: TurnView,
    answer: ResponseView,
    outcome: Result<Seq<char>, Seq<char>>,
)
    requires
        valid(t),
    ensures
        t.phase is Asking ==> 0 <= requests_left(after_answer(t, answer).0) < requests_left(t),
        t.phase is Running ==> requests_left(after_tool(t, outcome).0) == requests_left(t) && 0
            <= calls_left(after_tool(t, outcome).0) < calls_left(t),
{
    if t.phase is Running {
        lemma_next_function(t.calls, t.phase->Running_0 + 1);
    }
}

/// The ids of the function calls among items.
pub open spec fn call_ids(items: Seq<ItemView>) -> Seq<Seq<char>>
    decreases items.len(),
{
    if items.len() == 0 {
        Seq::empty()
    } else {
        let before = call_ids(items.drop_last());
        match items.last() {
            ItemView::ToolCall(c) if c.kind is FunctionCall => before.push(c.id),
            _ => before,
        }
    }
}

/// The call ids of the outputs among items.
pub open spec fn output_ids(items: Seq<ItemView>) -> Seq<Seq<char>>
    decreases items.len(),
{
    if items.len() == 0 {
        Seq::empty()
    } else {
        let before = output_ids(items.drop_last());
        match items.last() {
            ItemView::ToolCallOutput { call_id, output } => before.push(call_id),
            _ => before,
        }
    }
}

/// The ids of the function calls from an index on.
pub open spec fn pending_ids(calls: Seq<CallView>, from: int) -> Seq<Seq<char>>
    decreases calls.len() - from,
{
    if from < 0 || from >= calls.len() {
        Seq::empty()
    } else if calls[from].kind is FunctionCall {
        seq![calls[from].id] + pending_ids(calls, from + 1)
    } else {
        pending_ids(calls, from + 1)
    }
}

/// What the turn added to the dialogue after the user message.
pub open spec fn turn_items(t: TurnView) -> Seq<ItemView> {
    t.context.skip(t.history.len() as int + 1)
}

/// Calls and outputs match: every function call of the turn has had its
/// output, in order and under its id, but for those that are still to run.
pub open spec fn paired(t: TurnView) -> bool {
    let open = match t.phase {
        Phase::Running(i) => pending_ids(t.calls, i),
        _ => Seq::empty(),
    };
    call_ids(turn_items(t)) == output_ids(turn_items(t)) + open
}

proof fn lemma_ids_extend(a: Seq<ItemView>, b: Seq<ItemView>)
    ensures
        call_ids(a + b) == call_ids(a) + call_ids(b),
        output_ids(a + b) == output_ids(a) + output_ids(b),
    decreases b.len(),
{
    if b.len() == 0 {
        assert(a + b =~= a);
        assert(call_ids(a) + call_ids(b) =~= call_ids(a));
        assert(output_ids(a) + output_ids(b) =~= output_ids(a));
    } else {
        lemma_ids_extend(a, b.drop_last());
        assert((a + b).drop_last() =~= a + b.drop_last());
        assert((a + b).last() == b.last());
        assert(call_ids(a + b) =~= call_ids(a) + call_ids(b));
        assert(output_ids(a + b) =~= output_ids(a) + output_ids(b));
    }
}

proof fn lemma_call_items_ids(calls: Seq<CallView>, from: int)
    requires
        0 <= from <= calls.len(),
    ensures
        call_ids(call_items(calls.skip(from))) == pending_ids(calls, from),
        output_ids(call_items(calls.skip(from))) == Seq::<Seq<char>>::empty(),
    decreases calls.len() - from,
{
    let rest = call_items(calls.skip(from));
    if from < calls.len() {
        lemma_call_items_ids(calls, from + 1);
        let one = seq![ItemView::ToolCall(calls[from])];
        let tail = call_items(calls.skip(from + 1));
        assert(rest =~= one + tail);
        lemma_ids_extend(one, tail);
        assert(one.drop_last() =~= Seq::empty());
        reveal_with_fuel(call_ids, 2);
        reveal_with_fuel(output_ids, 2);
        assert(call_ids(rest) =~= pending_ids(calls, from));
        assert(output_ids(rest) =~= Seq::<Seq<char>>::empty());
    } else {
        assert(rest =~= Seq::empty());
    }
}

proof fn lemma_pending_from_next(calls: Seq<CallView>, from: int)
    requires
        0 <= from <= calls.len(),
    ensures
        pending_ids(calls, from) == pending_ids(calls, next_function(calls, from)),
    decreases calls.len() - from,
{
    if from < calls.len() && !(calls[from].kind is FunctionCall) {
        lemma_pending_from_next(calls, from + 1);
    }
}

proof fn lemma_answer_items_ids(answer: ResponseView)
    ensures
        call_ids(answer_items(answer)) == pending_ids(answer.tool_calls, 0),
        output_ids(answer_items(answer)) == Seq::<Seq<char>>::empty(),
        call_ids(closing_items(answer)) == Seq::<Seq<char>>::empty(),
        output_ids(closing_items(answer)) == Seq::<Seq<char>>::empty(),
{
    reveal_with_fuel(call_ids, 2);
    reveal_with_fuel(output_ids, 2);
    let reasoning = match answer.reasoning {
        Some(content) => seq![ItemView::Reasoning { content }],
        None => Seq::empty(),
    };
    assert(answer.tool_calls.skip(0) =~= answer.tool_calls);
    lemma_call_items_ids(answer.tool_calls, 0);
    lemma_ids_extend(reasoning, call_items(answer.tool_calls));
    assert(call_ids(reasoning) =~= Seq::<Seq<char>>::empty());
    assert(output_ids(reasoning) =~= Seq::<Seq<char>>::empty());
    assert(call_ids(answer_items(answer)) =~= pending_ids(answer.tool_calls, 0));
    assert(output_ids(answer_items(answer)) =~= Seq::<Seq<char>>::empty());
}

/// A fresh turn has neither calls nor outputs.
pub proof fn law_started_turn_is_paired(
    history: Seq<ItemView>,
    content: Seq<char>,
    start_row: i64,
    response_id: Option<Seq<char>>,
)
    ensures
        valid(started(history, content, start_row, response_id)),
        paired(started(history, content, start_row, response_id)),
{
    let t = started(history, content, start_row, response_id);
    assert(t.context.take(history.len() as int) =~= history);
    assert(turn_items(t) =~= Seq::empty());
    assert(output_ids(turn_items(t)) + Seq::<Seq<char>>::empty() =~= call_ids(turn_items(t)));
}

/// After an answer, its function calls are the ones still to be answered by
/// outputs; server-side calls never are.
pub proof fn law_answer_keeps_pairing(t: TurnView, answer: ResponseView)
    requires
        valid(t),
        paired(t),
        t.phase is Asking,
    ensures
        paired(after_answer(t, answer).0),
{
    let next = after_answer(t, answer).0;
    let items = answer_items(answer);
    lemma_answer_items_ids(answer);
    lemma_next_function(answer.tool_calls, 0);
    lemma_pending_from_next(answer.tool_calls, 0);
    assert(output_ids(turn_items(t)) + Seq::<Seq<char>>::empty() =~= output_ids(turn_items(t)));
    if next_function(answer.tool_calls, 0) < answer.tool_calls.len() {
        assert(turn_items(next) =~= turn_items(t) + items);
        lemma_ids_extend(turn_items(t), items);
        assert(call_ids(turn_items(next)) =~= output_ids(turn_items(next)) + pending_ids(
            answer.tool_calls,
            next_function(answer.tool_calls, 0),
        ));
    } else {
        let all = items + closing_items(answer);
        assert(turn_items(next) =~= turn_items(t) + all);
        lemma_ids_extend(turn_items(t), all);
        lemma_ids_extend(items, closing_items(answer));
        assert(pending_ids(answer.tool_calls, answer.tool_calls.len() as int) =~= Seq::<
            Seq<char>,
        >::empty());
        assert(call_ids(turn_items(next)) =~= output_ids(turn_items(next)) + Seq::<
            Seq<char>,
        >::empty());
    }
}

/// After the outcome of a call, the call has its output and the rest is still
/// to run; a turn that goes on or finishes leaves no call without its output.
pub proof fn law_outcome_keeps_pairing(t: TurnView, outcome: Result<Seq<char>, Seq<char>>)
    requires
        valid(t),
        paired(t),
        t.phase is Running,
    ensures
        after_tool(t, outcome).1.next !is Hold ==> paired(after_tool(t, outcome).0),
{
    let (next, step) = after_tool(t, outcome);
    let i = t.phase->Running_0;
    let output = step.persist;
    reveal_with_fuel(call_ids, 2);
    reveal_with_fuel(output_ids, 2);
    assert(turn_items(next) =~= turn_items(t) + output);
    lemma_ids_extend(turn_items(t), output);
    assert(output.drop_last() =~= Seq::empty());
    assert(output_ids(output) =~= seq![t.calls[i].id]);
    assert(call_ids(output) =~= Seq::<Seq<char>>::empty());
    lemma_next_function(t.calls, i + 1);
    lemma_pending_from_next(t.calls, i + 1);
    let rest = pending_ids(t.calls, i + 1);
    assert(call_ids(turn_items(next)) =~= output_ids(turn_items(next)) + rest);
}

// What a whole turn leaves in the store ---------------------------------------------

/// What a turn waits for and is told.
pub enum Told {
    /// The model's answer.
    Answer(ResponseView),
    /// The outcome of the tool call that runs.
    Outcome(Result<Seq<char>, Seq<char>>),
}

/// Whether a turn waits for what it is told.
pub open spec fn awaits(t: TurnView, told: Told) -> bool {
    match told {
        Told::Answer(_) => t.phase is Asking,
        Told::Outcome(_) => t.phase is Running,
    }
}

/// The step that follows what a turn is told.
pub open spec fn after_told(t: TurnView, told: Told) -> (TurnView, StepView) {
    match told {
        Told::Answer(answer) => after_answer(t, answer),
        Told::Outcome(outcome) => after_tool(t, outcome),
    }
}

/// A turn and what is stored, from the stored user message on.
pub open spec fn course(begun: TurnView, told: Seq<Told>) -> (TurnView, Seq<ItemView>)
    decreases told.len(),
{
    if told.len() == 0 {
        (begun, begun.context)
    } else {
        let (t, stored) = course(begun, told.drop_last());
        let (next, step) = after_told(t, told.last());
        (next, stored_after(stored, t.history.len() as int, step))
    }
}

/// Whether a turn is told only what it waits for.
pub open spec fn in_turn(begun: TurnView, told: Seq<Told>) -> bool
    decreases told.len(),
{
    told.len() > 0 ==> in_turn(begun, told.drop_last()) && awaits(
        course(begun, told.drop_last()).0,
        told.last(),
    )
}

/// Whether an item is the output of the call with that id.
pub open spec fn is_output_of(item: ItemView, id: Seq<char>) -> bool {
    item matches ItemView::ToolCallOutput { call_id, output } && call_id == id
}

/// Whether an item is a call, of either kind, with that id.
pub open spec fn is_call(item: ItemView, id: Seq<char>) -> bool {
    item matches ItemView::ToolCall(c) && c.id == id
}

/// Whether an item is a function call with that id.
pub open spec fn is_function(item: ItemView, id: Seq<char>) -> bool {
    item matches ItemView::ToolCall(c) && c.kind is FunctionCall && c.id == id
}

/// Every function call has exactly one output, which stands behind it, and no
/// other call has one.
pub open spec fn answered_once(items: Seq<ItemView>) -> bool {
    &&& forall|i: int, id: Seq<char>|
        0 <= i < items.len() && #[trigger] is_function(items[i], id) ==> exists|j: int|
            i < j < items.len() && #[trigger] is_output_of(items[j], id)
    &&& forall|i: int, j: int, k: int, id: Seq<char>|
        0 <= i < items.len() && 0 <= j < items.len() && 0 <= k < items.len() && #[trigger] is_function(
            items[i],
            id,
        ) && #[trigger] is_output_of(items[j], id) && #[trigger] is_output_of(items[k], id) ==> j
            == k
    &&& forall|i: int, j: int, id: Seq<char>|
        0 <= i < items.len() && 0 <= j < items.len() && #[trigger] is_call(items[i], id)
            && #[trigger] is_output_of(items[j], id) ==> is_function(items[i], id)
}

/// No two calls have the same id.
pub open spec fn distinct_calls(items: Seq<ItemView>) -> bool {
    forall|i: int, j: int, id: Seq<char>|
        0 <= i < items.len() && 0 <= j < items.len() && #[trigger] is_call(items[i], id)
            && #[trigger] is_call(items[j], id) ==> i == j
}

/// No call from an index on has the id of an output before the index.
pub open spec fn fresh_calls(items: Seq<ItemView>, from: int) -> bool {
    forall|i: int, j: int, id: Seq<char>|
        0 <= j < from <= i < items.len() && #[trigger] is_call(items[i], id)
            && #[trigger] is_output_of(items[j], id) ==> false
}

/// Every output stands behind a function call with its id.
pub open spec fn outputs_follow(items: Seq<ItemView>) -> bool {
    forall|j: int, id: Seq<char>|
        0 <= j < items.len() && #[trigger] is_output_of(items[j], id) ==> exists|i: int|
            0 <= i < j && #[trigger] is_function(items[i], id)
}

proof fn lemma_call_listed(items: Seq<ItemView>, i: int, id: Seq<char>)
    requires
        0 <= i < items.len(),
        is_function(items[i], id),
    ensures
        call_ids(items).contains(id),
    decreases items.len(),
{
    let before = items.drop_last();
    if i < before.len() {
        assert(before[i] == items[i]);
        lemma_call_listed(before, i, id);
        let k = choose|k: int| 0 <= k < call_ids(before).len() && call_ids(before)[k] == id;
        assert(call_ids(items)[k] == id);
    } else {
        assert(call_ids(items)[call_ids(before).len() as int] == id);
    }
}

proof fn lemma_listed_call(items: Seq<ItemView>, id: Seq<char>)
    requires
        call_ids(items).contains(id),
    ensures
        exists|i: int| 0 <= i < items.len() && #[trigger] is_function(items[i], id),
    decreases items.len(),
{
    let before = items.drop_last();
    if is_function(items[items.len() - 1], id) {
    } else {
        let k = choose|k: int| 0 <= k < call_ids(items).len() && call_ids(items)[k] == id;
        assert(k < call_ids(before).len());
        assert(call_ids(before)[k] == id);
        lemma_listed_call(before, id);
        let i = choose|i: int| 0 <= i < before.len() && #[trigger] is_function(before[i], id);
        assert(is_function(items[i], id));
    }
}

proof fn lemma_output_listed(items: Seq<ItemView>, i: int, id: Seq<char>)
    requires
        0 <= i < items.len(),
        is_output_of(items[i], id),
    ensures
        output_ids(items).contains(id),
    decreases items.len(),
{
    let before = items.drop_last();
    if i < before.len() {
        assert(before[i] == items[i]);
        lemma_output_listed(before, i, id);
        let k = choose|k: int| 0 <= k < output_ids(before).len() && output_ids(before)[k] == id;
        assert(output_ids(items)[k] == id);
    } else {
        assert(output_ids(items)[output_ids(before).len() as int] == id);
    }
}

proof fn lemma_listed_output(items: Seq<ItemView>, id: Seq<char>)
    requires
        output_ids(items).contains(id),
    ensures
        exists|i: int| 0 <= i < items.len() && #[trigger] is_output_of(items[i], id),
    decreases items.len(),
{
    let before = items.drop_last();
    if is_output_of(items[items.len() - 1], id) {
    } else {
        let k = choose|k: int| 0 <= k < output_ids(items).len() && output_ids(items)[k] == id;
        assert(k < output_ids(before).len());
        assert(output_ids(before)[k] == id);
        lemma_listed_output(before, id);
        let i = choose|i: int| 0 <= i < before.len() && #[trigger] is_output_of(before[i], id);
        assert(is_output_of(items[i], id));
    }
}

/// Outputs under one id at two places are listed twice.
proof fn lemma_outputs_listed_apart(items: Seq<ItemView>, j: int, k: int, id: Seq<char>)
    requires
        0 <= j < k < items.len(),
        is_output_of(items[j], id),
        is_output_of(items[k], id),
    ensures
        !output_ids(items).no_duplicates(),
    decreases items.len(),
{
    let before = items.drop_last();
    let ids = output_ids(before);
    assert(before[j] == items[j]);
    if k < before.len() {
        assert(before[k] == items[k]);
        lemma_outputs_listed_apart(before, j, k, id);
        let (a, b) = choose|a: int, b: int|
            0 <= a < ids.len() && 0 <= b < ids.len() && a != b && ids[a] == ids[b];
        assert(output_ids(items)[a] == output_ids(items)[b]);
    } else {
        lemma_output_listed(before, j, id);
        let a = choose|a: int| 0 <= a < ids.len() && ids[a] == id;
        assert(output_ids(items)[a] == output_ids(items)[ids.len() as int]);
    }
}

proof fn lemma_distinct_calls_listed_once(items: Seq<ItemView>)
    requires
        distinct_calls(items),
    ensures
        call_ids(items).no_duplicates(),
    decreases items.len(),
{
    if items.len() > 0 {
        let before = items.drop_last();
        assert forall|i: int, j: int, id: Seq<char>|
            0 <= i < before.len() && 0 <= j < before.len() && #[trigger] is_call(before[i], id)
                && #[trigger] is_call(before[j], id) implies i == j by {
            assert(is_call(items[i], id) && is_call(items[j], id));
        }
        lemma_distinct_calls_listed_once(before);
        let last = items[items.len() - 1];
        match last {
            ItemView::ToolCall(c) if c.kind is FunctionCall => {
                if call_ids(before).contains(c.id) {
                    lemma_listed_call(before, c.id);
                    let i = choose|i: int|
                        0 <= i < before.len() && #[trigger] is_function(before[i], c.id);
                    assert(is_call(items[i], c.id) && is_call(items[items.len() - 1], c.id));
                }
                assert(call_ids(items) =~= call_ids(before).push(c.id));
            },
            _ => {},
        }
    }
}

/// What holds in the course of a turn: what it added is paired, and its outputs
/// stand behind their calls.
spec fn in_order(t: TurnView) -> bool {
    paired(t) && outputs_follow(turn_items(t))
}

proof fn lemma_told_keeps_order(t: TurnView, told: Told)
    requires
        valid(t),
        in_order(t),
        awaits(t, told),
    ensures
        valid(after_told(t, told).0),
        after_told(t, told).1.next !is Hold ==> in_order(after_told(t, told).0),
        after_told(t, told).0.history == t.history,
        after_told(t, told).0.user == t.user,
        after_told(t, told).0.phase !is Done ==> after_told(t, told).1.next !is Hold,
{
    let (next, step) = after_told(t, told);
    let items = turn_items(t);
    match told {
        Told::Answer(answer) => {
            law_turn_stays_valid(t, answer, Ok(Seq::empty()));
            law_answer_keeps_pairing(t, answer);
            assert(turn_items(next) =~= items + step.persist);
            assert forall|j: int, id: Seq<char>|
                0 <= j < turn_items(next).len() && #[trigger] is_output_of(
                    turn_items(next)[j],
                    id,
                ) implies exists|i: int|
                0 <= i < j && #[trigger] is_function(turn_items(next)[i], id) by {
                if j < items.len() {
                    assert(is_output_of(items[j], id));
                    let i = choose|i: int| 0 <= i < j && #[trigger] is_function(items[i], id);
                    assert(is_function(turn_items(next)[i], id));
                } else {
                    assert(turn_items(next)[j] == step.persist[j - items.len()]);
                }
            }
        },
        Told::Outcome(outcome) => {
            law_turn_stays_valid(
                t,
                ResponseView {
                    id: None,
                    content: None,
                    reasoning: None,
                    tool_calls: Seq::empty(),
                },
                outcome,
            );
            law_outcome_keeps_pairing(t, outcome);
            let call = t.calls[t.phase->Running_0];
            assert(turn_items(next) =~= items + step.persist);
            assert(call_ids(items)[output_ids(items).len() as int] == call.id);
            assert(call_ids(items).contains(call.id));
            lemma_listed_call(items, call.id);
            assert forall|j: int, id: Seq<char>|
                0 <= j < turn_items(next).len() && #[trigger] is_output_of(
                    turn_items(next)[j],
                    id,
                ) implies exists|i: int|
                0 <= i < j && #[trigger] is_function(turn_items(next)[i], id) by {
                if j < items.len() {
                    assert(is_output_of(items[j], id));
                    let i = choose|i: int| 0 <= i < j && #[trigger] is_function(items[i], id);
                    assert(is_function(turn_items(next)[i], id));
                } else {
                    assert(turn_items(next)[j] == step.persist[0]);
                    let i = choose|i: int|
                        0 <= i < items.len() && #[trigger] is_function(items[i], call.id);
                    assert(is_function(turn_items(next)[i], id));
                }
            }
        },
    }
}

/// What a held turn leaves: the earlier dialogue, the user message and the
/// trace of the wait.
pub open spec fn held_items(
    history: Seq<ItemView>,
    content: Seq<char>,
    arguments: Seq<char>,
) -> Seq<ItemView> {
    history + seq![user_item(content), ItemView::Wait { arguments }]
}

/// Whether items are what a held turn leaves.
spec fn held(items: Seq<ItemView>, history: Seq<ItemView>, content: Seq<char>) -> bool {
    exists|arguments: Seq<char>| items == #[trigger] held_items(history, content, arguments)
}

proof fn lemma_course(
    history: Seq<ItemView>,
    content: Seq<char>,
    start_row: i64,
    response_id: Option<Seq<char>>,
    told: Seq<Told>,
)
    requires
        in_turn(started(history, content, start_row, response_id), told),
    ensures
        ({
            let (t, stored) = course(started(history, content, start_row, response_id), told);
            &&& valid(t)
            &&& t.history == history
            &&& t.user == content
            &&& stored == t.context && in_order(t) || t.phase is Done && held(
                stored,
                history,
                content,
            )
        }),
    decreases told.len(),
{
    let begun = started(history, content, start_row, response_id);
    if told.len() == 0 {
        law_started_turn_is_paired(history, content, start_row, response_id);
        assert(turn_items(begun) =~= Seq::empty());
    } else {
        lemma_course(history, content, start_row, response_id, told.drop_last());
        let (t, stored) = course(begun, told.drop_last());
        let (next, step) = after_told(t, told.last());
        lemma_told_keeps_order(t, told.last());
        match told.last() {
            Told::Answer(answer) => {
                law_answer_is_stored_as_sent(t, answer);
            },
            Told::Outcome(outcome) => {
                law_outcome_is_stored_as_sent(t, outcome);
                if step.next is Hold {
                    let arguments = responses::text_or_empty(
                        t.calls[t.phase->Running_0].arguments,
                    );
                    assert(stored_after(stored, t.history.len() as int, step) == held_items(
                        history,
                        content,
                        arguments,
                    ));
                }
            },
        }
    }
}

proof fn lemma_items_answered(items: Seq<ItemView>)
    requires
        call_ids(items) == output_ids(items),
        outputs_follow(items),
        distinct_calls(items),
    ensures
        answered_once(items),
{
    lemma_distinct_calls_listed_once(items);
    assert forall|i: int, id: Seq<char>|
        0 <= i < items.len() && #[trigger] is_function(items[i], id) implies exists|j: int|
        i < j < items.len() && #[trigger] is_output_of(items[j], id) by {
        lemma_call_listed(items, i, id);
        lemma_listed_output(items, id);
        let j = choose|j: int| 0 <= j < items.len() && #[trigger] is_output_of(items[j], id);
        let k = choose|k: int| 0 <= k < j && #[trigger] is_function(items[k], id);
        assert(is_call(items[k], id) && is_call(items[i], id));
    }
    assert forall|i: int, j: int, k: int, id: Seq<char>|
        0 <= i < items.len() && 0 <= j < items.len() && 0 <= k < items.len() && #[trigger] is_function(
            items[i],
            id,
        ) && #[trigger] is_output_of(items[j], id) && #[trigger] is_output_of(
            items[k],
            id,
        ) implies j == k by {
        if j < k {
            lemma_outputs_listed_apart(items, j, k, id);
        } else if k < j {
            lemma_outputs_listed_apart(items, k, j, id);
        }
    }
    assert forall|i: int, j: int, id: Seq<char>|
        0 <= i < items.len() && 0 <= j < items.len() && #[trigger] is_call(items[i], id)
            && #[trigger] is_output_of(items[j], id) implies is_function(items[i], id) by {
        let k = choose|k: int| 0 <= k < j && #[trigger] is_function(items[k], id);
        assert(is_call(items[k], id));
    }
}

/// After a finished turn the whole stored dialogue begins with what was stored
/// before, row for row, followed by the user message; and where every function
/// call had exactly one output behind it and no other call had one, this still
/// holds of all that is stored. It is asked that no two stored calls have the
/// same id and that no call of the turn has the id of an earlier output.
pub proof fn law_finished_turns_leave_calls_answered(
    history: Seq<ItemView>,
    content: Seq<char>,
    start_row: i64,
    response_id: Option<Seq<char>>,
    told: Seq<Told>,
)
    requires
        in_turn(started(history, content, start_row, response_id), told),
        course(started(history, content, start_row, response_id), told).0.phase is Done,
        answered_once(history),
        distinct_calls(course(started(history, content, start_row, response_id), told).1),
        fresh_calls(
            course(started(history, content, start_row, response_id), told).1,
            history.len() as int,
        ),
    ensures
        ({
            let stored = course(started(history, content, start_row, response_id), told).1;
            &&& stored.len() > history.len()
            &&& stored.take(history.len() as int) == history
            &&& stored[history.len() as int] == user_item(content)
            &&& answered_once(stored)
        }),
{
    let (t, stored) = course(started(history, content, start_row, response_id), told);
    lemma_course(history, content, start_row, response_id, told);
    let n = history.len() as int;
    if held(stored, history, content) {
        let arguments = choose|arguments: Seq<char>|
            stored == #[trigger] held_items(history, content, arguments);
        assert(stored.take(n) =~= history);
        assert forall|i: int| 0 <= i < stored.len() && i >= n implies !(#[trigger] stored[i]
            is ToolCall) && !(stored[i] is ToolCallOutput) by {}
        lemma_answered_together(history, Seq::empty(), stored, n);
    } else {
        let items = turn_items(t);
        assert(output_ids(items) + Seq::<Seq<char>>::empty() =~= output_ids(items));
        assert forall|i: int, j: int, id: Seq<char>|
            0 <= i < items.len() && 0 <= j < items.len() && #[trigger] is_call(items[i], id)
                && #[trigger] is_call(items[j], id) implies i == j by {
            assert(items[i] == stored[i + n + 1] && items[j] == stored[j + n + 1]);
            assert(is_call(stored[i + n + 1], id) && is_call(stored[j + n + 1], id));
        }
        lemma_items_answered(items);
        lemma_answered_together(history, items, stored, n + 1);
    }
}

/// Two parts of a dialogue with items of no call between them are answered
/// together where each is and their ids do not meet.
proof fn lemma_answered_together(
    first: Seq<ItemView>,
    second: Seq<ItemView>,
    all: Seq<ItemView>,
    from: int,
)
    requires
        answered_once(first),
        answered_once(second),
        outputs_follow(second),
        first.len() <= from <= all.len(),
        all.take(first.len() as int) == first,
        forall|i: int|
            #![trigger all[i]]
            first.len() <= i < all.len() && !(from <= i < from + second.len()) ==> !(all[i]
                is ToolCall) && !(all[i] is ToolCallOutput),
        from + second.len() <= all.len(),
        forall|i: int| 0 <= i < second.len() ==> all[from + i] == #[trigger] second[i],
        distinct_calls(all),
        fresh_calls(all, first.len() as int),
    ensures
        answered_once(all),
{
    let n = first.len() as int;
    assert forall|i: int| 0 <= i < n implies #[trigger] all[i] == first[i] by {
        assert(all.take(n)[i] == all[i]);
    }
    assert forall|i: int| from <= i < from + second.len() implies #[trigger] all[i] == second[i
        - from] by {
        assert(all[from + (i - from)] == second[i - from]);
    }
    // An output of the second part has its call in the second part.
    assert forall|i: int, j: int, id: Seq<char>|
        0 <= i < n <= j < all.len() && #[trigger] is_call(all[i], id) && #[trigger] is_output_of(
            all[j],
            id,
        ) implies false by {
        assert(is_output_of(second[j - from], id));
        let k = choose|k: int| 0 <= k < j - from && #[trigger] is_function(second[k], id);
        assert(is_call(all[from + k], id));
    }
    assert forall|i: int, id: Seq<char>|
        0 <= i < all.len() && #[trigger] is_function(all[i], id) implies exists|j: int|
        i < j < all.len() && #[trigger] is_output_of(all[j], id) by {
        if i < n {
            assert(is_function(first[i], id));
            let j = choose|j: int| i < j < first.len() && #[trigger] is_output_of(first[j], id);
            assert(is_output_of(all[j], id));
        } else {
            assert(is_function(second[i - from], id));
            let j = choose|j: int|
                i - from < j < second.len() && #[trigger] is_output_of(second[j], id);
            assert(is_output_of(all[from + j], id));
        }
    }
    assert forall|i: int, j: int, k: int, id: Seq<char>|
        0 <= i < all.len() && 0 <= j < all.len() && 0 <= k < all.len() && #[trigger] is_function(
            all[i],
            id,
        ) && #[trigger] is_output_of(all[j], id) && #[trigger] is_output_of(
            all[k],
            id,
        ) implies j == k by {
        assert(is_call(all[i], id));
        if i < n {
            assert(is_function(first[i], id) && is_output_of(first[j], id) && is_output_of(
                first[k],
                id,
            ));
        } else {
            assert(is_function(second[i - from], id) && is_output_of(second[j - from], id)
                && is_output_of(second[k - from], id));
        }
    }
    assert forall|i: int, j: int, id: Seq<char>|
        0 <= i < all.len() && 0 <= j < all.len() && #[trigger] is_call(all[i], id)
            && #[trigger] is_output_of(all[j], id) implies is_function(all[i], id) by {
        if i < n {
            assert(is_call(first[i], id) && is_output_of(first[j], id));
        } else {
            assert(is_call(second[i - from], id) && is_output_of(second[j - from], id));
        }
    }
}

// What a turn is for ---------------------------------------------------------------------

/// The outcome of a tool is recorded whole, under the id of the call that ran:
/// what it returned as it stands, a failure behind `tool error: `. The one item
/// that is stored is the one that the next request sends, behind everything
/// that was sent before.
pub proof fn law_outputs_are_recorded_whole(t: TurnView, i: int, s: Seq<char>)
    requires
        t.phase == Phase::Running(i),
        0 <= i < t.calls.len(),
    ensures
        ({
            let item = ItemView::ToolCallOutput { call_id: t.calls[i].id, output: s };
            &&& after_tool(t, Ok(s)).1.persist == seq![item]
            &&& after_tool(t, Ok(s)).0.context == t.context.push(item)
        }),
        ({
            let item = ItemView::ToolCallOutput {
                call_id: t.calls[i].id,
                output: "tool error: "@ + s,
            };
            &&& after_tool(t, Err(s)).1.persist == seq![item]
            &&& after_tool(t, Err(s)).0.context == t.context.push(item)
        }),
{
}

/// After an outcome the next function call of the answer runs. Where none is
/// left the model is asked again, unless it was asked sixteen times: then the
/// turn is over. Only a successful call to `wait` holds the turn, whatever is
/// left: everything since its start gives way to the user message and the
/// marker with the call's arguments.
pub proof fn law_outcomes_lead_on(
    t: TurnView,
    i: int,
    k: int,
    outcome: Result<Seq<char>, Seq<char>>,
)
    requires
        t.phase == Phase::Running(i),
        0 <= i < t.calls.len(),
        t.calls[i].kind is FunctionCall,
    ensures
        t.calls[i].name == Some("wait"@) && outcome is Ok ==> ({
            let (after, step) = after_tool(t, outcome);
            &&& after.phase is Done
            &&& step.next is Hold
            &&& step.next->after_row == t.start_row
            &&& step.next->items.len() == 2
            &&& step.next->items[0] == (ItemView::Message {
                role: MessageRole::User,
                content: t.user,
            })
            &&& step.next->items[1] is Wait
            &&& t.calls[i].arguments matches Some(a) ==> step.next->items[1]->arguments == a
            &&& t.calls[i].arguments is None ==> step.next->items[1]->arguments.len() == 0
            &&& step.next->Hold_response_id == t.response_id
        }),
        t.calls[i].name != Some("wait"@) || outcome is Err ==> ({
            let (after, step) = after_tool(t, outcome);
            let last = forall|j: int|
                i < j < t.calls.len() ==> !((#[trigger] t.calls[j]).kind is FunctionCall);
            let is_next = i < k < t.calls.len() && t.calls[k].kind is FunctionCall && (forall|
                j: int,
            |
                i < j < k ==> !((#[trigger] t.calls[j]).kind is FunctionCall));
            &&& is_next ==> after.phase == Phase::Running(k) && step.next == NextView::Run(
                t.calls[k],
            )
            &&& last && t.rounds < 16 ==> after.phase is Asking && step.next is Ask
            &&& last && t.rounds >= 16 ==> after.phase is Done && step.next == (NextView::Finish {
                response_id: t.response_id,
            })
        }),
        ({
            let after = after_tool(t, outcome).0;
            &&& after.history == t.history && after.user == t.user && after.start_row
                == t.start_row
            &&& after.response_id == t.response_id && after.rounds == t.rounds && after.calls
                == t.calls
        }),
{
    lemma_first_function(t.calls, i + 1, k);
    let last = forall|j: int|
        i < j < t.calls.len() ==> !((#[trigger] t.calls[j]).kind is FunctionCall);
    if last {
        assert(next_function(t.calls, i + 1) == t.calls.len());
    }
}

proof fn lemma_first_function(calls: Seq<CallView>, from: int, k: int)
    requires
        0 <= from <= calls.len(),
    ensures
        from <= k < calls.len() && calls[k].kind is FunctionCall && (forall|j: int|
            from <= j < k ==> !((#[trigger] calls[j]).kind is FunctionCall)) ==> next_function(
            calls,
            from,
        ) == k,
        (forall|j: int| from <= j < calls.len() ==> !((#[trigger] calls[j]).kind is FunctionCall))
            ==> next_function(calls, from) == calls.len(),
        next_function(calls, from) < calls.len() ==> from <= next_function(calls, from)
            && calls[next_function(calls, from)].kind is FunctionCall,
    decreases calls.len() - from,
{
    if from < calls.len() && !(calls[from].kind is FunctionCall) {
        lemma_first_function(calls, from + 1, k);
    }
}

/// An answer is recorded whole: its reasoning first, then each of its calls in
/// order and, where no function call is among them, the whole of its text as
/// the assistant's message. What is stored is what the next request sends.
pub proof fn law_answers_are_recorded_whole(t: TurnView, answer: ResponseView, i: int)
    ensures
        ({
            let (after, step) = after_answer(t, answer);
            let n: int = if answer.reasoning is Some {
                1
            } else {
                0
            };
            let calls = answer.tool_calls;
            let closes = forall|j: int|
                0 <= j < calls.len() ==> !((#[trigger] calls[j]).kind is FunctionCall);
            &&& after.context == t.context + step.persist
            &&& answer.reasoning matches Some(content) ==> step.persist[0] == (
            ItemView::Reasoning { content })
            &&& 0 <= i < calls.len() ==> step.persist[n + i] == ItemView::ToolCall(calls[i])
            &&& closes && answer.content is Some ==> step.persist.len() == n + calls.len() + 1
                && step.persist.last() == (ItemView::Message {
                role: MessageRole::Assistant,
                content: answer.content->Some_0,
            })
            &&& !closes || answer.content is None ==> step.persist.len() == n + calls.len()
        }),
{
    lemma_first_function(answer.tool_calls, 0, 0);
    let calls = answer.tool_calls;
    if exists|j: int| 0 <= j < calls.len() && (#[trigger] calls[j]).kind is FunctionCall {
        let j = choose|j: int| 0 <= j < calls.len() && (#[trigger] calls[j]).kind is FunctionCall;
        lemma_function_is_reached(calls, 0, j);
    }
}

proof fn lemma_function_is_reached(calls: Seq<CallView>, from: int, j: int)
    requires
        0 <= from <= j < calls.len(),
        calls[j].kind is FunctionCall,
    ensures
        from <= next_function(calls, from) <= j,
    decreases calls.len() - from,
{
    if !(calls[from].kind is FunctionCall) {
        lemma_function_is_reached(calls, from + 1, j);
    }
}

/// After an answer its first function call runs; an answer without any closes
/// the turn. The turn counts the answer, and keeps the id of the latest answer
/// that had one.
pub proof fn law_answers_lead_on(t: TurnView, answer: ResponseView, k: int)
    ensures
        ({
            let (after, step) = after_answer(t, answer);
            let calls = answer.tool_calls;
            let closes = forall|j: int|
                0 <= j < calls.len() ==> !((#[trigger] calls[j]).kind is FunctionCall);
            let is_first = 0 <= k < calls.len() && calls[k].kind is FunctionCall && forall|j: int|
                0 <= j < k ==> !((#[trigger] calls[j]).kind is FunctionCall);
            &&& is_first ==> after.phase == Phase::Running(k) && step.next == NextView::Run(
                calls[k],
            )
            &&& closes ==> after.phase is Done && step.next == (NextView::Finish {
                response_id: after.response_id,
            })
            &&& answer.id is Some ==> after.response_id == answer.id
            &&& answer.id is None ==> after.response_id == t.response_id
            &&& after.rounds == t.rounds + 1
            &&& after.calls == calls
            &&& after.history == t.history && after.user == t.user && after.start_row
                == t.start_row
        }),
{
    lemma_first_function(answer.tool_calls, 0, k);
}

/// A turn starts with the stored history and the whole of the user's message
/// behind it, and asks the model first.
pub proof fn law_turns_start_with_the_message(
    history: Seq<ItemView>,
    content: Seq<char>,
    start_row: i64,
    response_id: Option<Seq<char>>,
)
    ensures
        ({
            let t = started(history, content, start_row, response_id);
            &&& t.context.len() == history.len() + 1
            &&& t.context.take(history.len() as int) == history
            &&& t.context.last() == (ItemView::Message { role: MessageRole::User, content })
            &&& t.history == history && t.user == content && t.start_row == start_row
            &&& t.response_id == response_id && t.rounds == 0 && t.calls.len() == 0
            &&& t.phase is Asking
        }),
{
    let t = started(history, content, start_row, response_id);
    assert(t.context.take(history.len() as int) =~= history);
}

/// The view of a step shows every item and what follows, character for
/// character.
pub proof fn law_step_views_show_the_step(step: Step, i: int)
    ensures
        step@.persist.len() == step.persist@.len(),
        0 <= i < step.persist@.len() ==> step@.persist[i] == step.persist@[i]@,
        match step.next {
            Next::Ask => step@.next is Ask,
            Next::Run(call) => step@.next == NextView::Run(call@),
            Next::Finish { response_id } => {
                &&& step@.next is Finish
                &&& response_id matches Some(id) ==> step@.next->Finish_response_id == Some(id@)
                &&& response_id is None ==> step@.next->Finish_response_id is None
            },
            Next::Hold { after_row, items, response_id } => {
                &&& step@.next is Hold
                &&& step@.next->after_row == after_row
                &&& step@.next->items.len() == items@.len()
                &&& 0 <= i < items@.len() ==> step@.next->items[i] == items@[i]@
                &&& response_id matches Some(id) ==> step@.next->Hold_response_id == Some(id@)
                &&& response_id is None ==> step@.next->Hold_response_id is None
            },
        },
{
}

/// When the call that runs ends, what it returned is stored whole, as the one
/// item of the step and as the last of the context, under the id of the call; a
/// failure is stored whole behind `tool error: `.
pub proof fn law_ended_calls_are_stored_whole(
    turn: &mut Turn,
    outcome: Result<String, String>,
    r: Step,
)
    requires
        old(turn).wf(),
        old(turn)@.phase is Running,
        call_ensures(Turn::tool_done, (turn, outcome), r),
    ensures
        ({
            let before = old(turn)@;
            let output = match outcome {
                Ok(s) => s@,
                Err(e) => "tool error: "@ + e@,
            };
            let item = ItemView::ToolCallOutput {
                call_id: before.calls[before.phase->Running_0].id,
                output,
            };
            &&& r.persist@.len() == 1
            &&& r.persist@[0]@ == item
            &&& final(turn)@.context == before.context.push(item)
        }),
{
    let before = old(turn)@;
    let told = text::outcome(outcome);
    assert((final(turn)@, r@) == after_tool(before, told));
    assert(session::item_views(r.persist@).len() == r.persist@.len());
    assert(session::item_views(r.persist@)[0] == r.persist@[0]@);
}

/// An answer is stored whole: each of its calls in order, and its text as the
/// last item where it has no function call. What is stored is what the next
/// request sends.
pub proof fn law_answers_are_stored_whole(
    turn: &mut Turn,
    answer: LlmResponse,
    r: Step,
    i: int,
)
    requires
        old(turn).wf(),
        old(turn)@.phase is Asking,
        call_ensures(Turn::answered, (turn, answer), r),
    ensures
        ({
            let n: int = if answer.reasoning is Some {
                1
            } else {
                0
            };
            let calls = answer.tool_calls@;
            let closes = forall|j: int|
                0 <= j < calls.len() ==> !((#[trigger] calls[j]).kind is FunctionCall);
            &&& r.persist@.len() >= n + calls.len()
            &&& answer.reasoning matches Some(content) ==> r.persist@[0]@ == (
            ItemView::Reasoning { content: content@ })
            &&& 0 <= i < calls.len() ==> r.persist@[n + i]@ == ItemView::ToolCall(calls[i]@)
            &&& closes && answer.content is Some ==> r.persist@.len() == n + calls.len() + 1
                && r.persist@[n + calls.len()]@ == (ItemView::Message {
                role: MessageRole::Assistant,
                content: answer.content->Some_0@,
            })
            &&& final(turn)@.context == old(turn)@.context + session::item_views(r.persist@)
        }),
{
    let before = old(turn)@;
    assert((final(turn)@, r@) == after_answer(before, answer@));
    law_answers_are_recorded_whole(before, answer@, i);
    let calls = answer.tool_calls@;
    let views = answer@.tool_calls;
    let stored = session::item_views(r.persist@);
    assert(views.len() == calls.len());
    assert(stored.len() == r.persist@.len());
    assert forall|j: int| 0 <= j < views.len() implies (#[trigger] views[j]) == calls[j]@ by {}
    if forall|j: int| 0 <= j < calls.len() ==> !((#[trigger] calls[j]).kind is FunctionCall) {
        assert forall|j: int| 0 <= j < views.len() implies !((#[trigger] views[j]).kind
            is FunctionCall) by {
            assert(views[j] == calls[j]@);
            assert(!(calls[j].kind is FunctionCall));
        }
    }
    assert forall|j: int| 0 <= j < r.persist@.len() implies #[trigger] stored[j]
        == r.persist@[j]@ by {}
}

} // verus!
