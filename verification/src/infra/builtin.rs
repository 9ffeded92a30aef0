//! The built-in tools: files, reminders and the status.

use vstd::prelude::*;
use vstd::string::*;

use crate::domain::conversation::{Conversation, ConversationView};
use crate::domain::permissions;
use crate::domain::permissions::PathPolicy;
use crate::domain::session;
use crate::domain::tool;
use crate::domain::tool::{ParamsView, PropertyDef, Tool, ToolParams};
use crate::infra::scheduler::Reminder;
use crate::number;
use crate::platform;
use crate::text;

verus! {

// Reading files -------------------------------------------------------------------

/// Reads a file of the persona's workspace, or another with approval.
#[derive(Debug)]
pub struct FileReadTool {
    pub personas_dir: Vec<String>,
}

/// The parameters of the tool that reads files.
pub open spec fn file_read_params() -> ParamsView {
    tool::needing(
        tool::no_params(),
        "path"@,
        tool::string_property("Relative path within the persona workspace"@),
    )
}

impl Tool for FileReadTool {
    open spec fn tool_name(&self) -> Seq<char> {
        "file_read"@
    }

    open spec fn tool_description(&self) -> Seq<char> {
        "Read a file within the persona workspace"@
    }

    open spec fn tool_parameters(&self) -> ParamsView {
        file_read_params()
    }

    fn name(&self) -> (r: &str) {
        "file_read"
    }

    fn description(&self) -> (r: &str) {
        "Read a file within the persona workspace"
    }

    fn parameters(&self) -> (r: ToolParams) {
        ToolParams::none().needing(
            "path",
            PropertyDef::string("Relative path within the persona workspace"),
        )
    }
}

/// A path: as the user sees it, and its components.
#[derive(Debug)]
pub struct FilePath {
    pub display: String,
    pub components: Vec<String>,
}

/// The path argument of a call. `member` is the string that the arguments hold
/// under `path`.
pub fn path_argument(member: Option<String>) -> (r: Result<String, String>)
    ensures
        match member {
            Some(p) => r matches Ok(s) && s == p,
            None => r matches Err(e) && e@ == "missing 'path' argument"@,
        },
{
    match member {
        Some(p) => Ok(p),
        None => Err("missing 'path' argument".to_owned()),
    }
}

impl FileReadTool {
    pub fn new(personas_dir: Vec<String>) -> (r: Self)
        ensures
            r.personas_dir == personas_dir,
    {
        FileReadTool { personas_dir }
    }

    /// The path that a call asks for.
    pub fn requested_path(&self, args: &str) -> (r: Result<String, String>)
        ensures
            match platform::json_string_member(args@, "path"@) {
                Some(p) => r matches Ok(s) && s@ == p,
                None => r matches Err(e) && e@ == "missing 'path' argument"@,
            },
    {
        path_argument(platform::string_member(args, "path"))
    }
}

/// What a read waits for.
#[derive(Debug, Clone, Copy, PartialEq, Eq, Structural)]
pub enum ReadPhase {
    /// The file to be located.
    Locating,
    /// A decision on a path that could not be located.
    AskingForUnlocated,
    /// The file to be located after all.
    Relocating,
    /// A decision on the located file.
    AskingForLocated,
    /// Nothing: the file is to be read.
    Reading,
    /// Nothing: the read is refused.
    Refused,
}

/// What is to be done next for a read.
#[derive(Debug, PartialEq)]
pub enum ReadStep {
    /// Locate the file; where that fails now, the read fails.
    Locate,
    /// Ask the user.
    Ask(String),
    /// Read the located file.
    Read,
    /// The read fails with this message.
    Fail(String),
}

/// The view of a [`ReadStep`].
pub enum ReadStepView {
    Locate,
    Ask(Seq<char>),
    Read,
    Fail(Seq<char>),
}

impl View for ReadStep {
    type V = ReadStepView;

    open spec fn view(&self) -> ReadStepView {
        match *self {
            ReadStep::Locate => ReadStepView::Locate,
            ReadStep::Ask(prompt) => ReadStepView::Ask(prompt@),
            ReadStep::Read => ReadStepView::Read,
            ReadStep::Fail(message) => ReadStepView::Fail(message@),
        }
    }
}

/// A read in progress.
#[derive(Debug)]
pub struct FileRead {
    pub persona: String,
    /// The path as it was asked for.
    pub resolved: FilePath,
    /// The located workspace.
    pub workspace: Vec<String>,
    pub phase: ReadPhase,
}

/// Whether a read of a path needs the user: its components begin neither with
/// those of the workspace nor with those of an allowed path. A located path has
/// no `.` and no `..`, so of it this says that it is neither in the workspace
/// nor allowed.
pub open spec fn read_needs_user(
    path: Seq<Seq<char>>,
    workspace: Seq<Seq<char>>,
    allowed: Set<Seq<Seq<char>>>,
) -> bool {
    !permissions::at_or_below(path, workspace) && !permissions::readable(allowed, path)
}

/// The question of a read.
pub open spec fn read_prompt(persona: Seq<char>, path: Seq<char>) -> Seq<char> {
    persona + " wants to read outside its workspace: "@ + path
}

/// What follows when the file was located.
pub open spec fn on_located(
    read: FileRead,
    path: Seq<Seq<char>>,
    allowed: Set<Seq<Seq<char>>>,
) -> (ReadPhase, ReadStepView) {
    if read_needs_user(path, text::texts(read.workspace@), allowed) {
        (
            ReadPhase::AskingForLocated,
            ReadStepView::Ask(read_prompt(read.persona@, read.resolved.display@)),
        )
    } else {
        (ReadPhase::Reading, ReadStepView::Read)
    }
}

/// What follows when the file could not be located at first.
pub open spec fn on_unlocated(read: FileRead, allowed: Set<Seq<Seq<char>>>) -> (
    ReadPhase,
    ReadStepView,
) {
    if read_needs_user(
        text::texts(read.resolved.components@),
        text::texts(read.workspace@),
        allowed,
    ) {
        (
            ReadPhase::AskingForUnlocated,
            ReadStepView::Ask(read_prompt(read.persona@, read.resolved.display@)),
        )
    } else {
        (ReadPhase::Relocating, ReadStepView::Locate)
    }
}

/// What follows the user's decision.
pub open spec fn on_decision(read: FileRead, approved: bool) -> (ReadPhase, ReadStepView) {
    if !approved {
        (ReadPhase::Refused, ReadStepView::Fail("permission denied"@))
    } else if read.phase is AskingForUnlocated {
        (ReadPhase::Relocating, ReadStepView::Locate)
    } else {
        (ReadPhase::Reading, ReadStepView::Read)
    }
}

impl FileRead {
    /// Begins a read; the first thing to do is to locate the file.
    pub fn begin(persona: &str, resolved: FilePath, workspace: Vec<String>) -> (r: Self)
        ensures
            r.persona@ == persona@,
            r.resolved == resolved,
            r.workspace == workspace,
            r.phase is Locating,
    {
        FileRead { persona: persona.to_owned(), resolved, workspace, phase: ReadPhase::Locating }
    }

    fn needs_user(&self, path: &Vec<String>, policy: &PathPolicy) -> (r: bool)
        ensures
            r == read_needs_user(text::texts(path@), text::texts(self.workspace@), policy@),
    {
        !permissions::path_starts_with(path, &self.workspace) && !policy.is_read_allowed(path)
    }

    fn prompt(&self) -> (r: String)
        ensures
            r@ == read_prompt(self.persona@, self.resolved.display@),
    {
        self.persona.clone().concat(" wants to read outside its workspace: ").concat(
            self.resolved.display.as_str(),
        )
    }

    /// The file was located.
    pub fn located(&mut self, path: &Vec<String>, policy: &PathPolicy) -> (r: ReadStep)
        requires
            old(self).phase is Locating || old(self).phase is Relocating,
        ensures
            (final(self).phase, r@) == on_located(*old(self), text::texts(path@), policy@),
            final(self).persona == old(self).persona,
            final(self).resolved == old(self).resolved,
            final(self).workspace == old(self).workspace,
    {
        if self.needs_user(path, policy) {
            self.phase = ReadPhase::AskingForLocated;
            ReadStep::Ask(self.prompt())
        } else {
            self.phase = ReadPhase::Reading;
            ReadStep::Read
        }
    }

    /// The file could not be located at first.
    pub fn unlocated(&mut self, policy: &PathPolicy) -> (r: ReadStep)
        requires
            old(self).phase is Locating,
        ensures
            (final(self).phase, r@) == on_unlocated(*old(self), policy@),
            final(self).persona == old(self).persona,
            final(self).resolved == old(self).resolved,
            final(self).workspace == old(self).workspace,
    {
        if self.needs_user(&self.resolved.components, policy) {
            self.phase = ReadPhase::AskingForUnlocated;
            ReadStep::Ask(self.prompt())
        } else {
            self.phase = ReadPhase::Relocating;
            ReadStep::Locate
        }
    }

    /// The user decided.
    pub fn decided(&mut self, approved: bool) -> (r: ReadStep)
        requires
            old(self).phase is AskingForUnlocated || old(self).phase is AskingForLocated,
        ensures
            (final(self).phase, r@) == on_decision(*old(self), approved),
            final(self).persona == old(self).persona,
            final(self).resolved == old(self).resolved,
            final(self).workspace == old(self).workspace,
    {
        if !approved {
            self.phase = ReadPhase::Refused;
            return ReadStep::Fail("permission denied".to_owned());
        }
        match self.phase {
            ReadPhase::AskingForUnlocated => {
                self.phase = ReadPhase::Relocating;
                ReadStep::Locate
            },
            _ => {
                self.phase = ReadPhase::Reading;
                ReadStep::Read
            },
        }
    }
}

/// A file is read only when it lies in the workspace, lies at or below an
/// allowed path, or the user approved the read of the located file; a file of
/// the workspace is read without a question.
pub proof fn law_reads_are_inside_allowed_or_approved(
    read: FileRead,
    path: Seq<Seq<char>>,
    allowed: Set<Seq<Seq<char>>>,
    approved: bool,
)
    ensures
        on_located(read, path, allowed).1 is Read ==> permissions::at_or_below(
            path,
            text::texts(read.workspace@),
        ) || permissions::readable(allowed, path),
        on_unlocated(read, allowed).1 !is Read,
        on_decision(read, approved).1 is Read ==> approved,
        !approved ==> on_decision(read, approved).1 is Fail,
        permissions::at_or_below(path, text::texts(read.workspace@)) ==> on_located(
            read,
            path,
            allowed,
        ).1 is Read,
{
}

// Writing files ---------------------------------------------------------------------

/// Writes a file of the persona's workspace, or another with approval.
#[derive(Debug)]
pub struct FileWriteTool {
    pub personas_dir: Vec<String>,
}

/// The parameters of the tool that writes files.
pub open spec fn file_write_params() -> ParamsView {
    tool::needing(
        tool::needing(
            tool::no_params(),
            "path"@,
            tool::string_property("Relative path within the persona workspace"@),
        ),
        "content"@,
        tool::string_property("Content to write"@),
    )
}

impl Tool for FileWriteTool {
    open spec fn tool_name(&self) -> Seq<char> {
        "file_write"@
    }

    open spec fn tool_description(&self) -> Seq<char> {
        "Write content to a file within the persona workspace. Creates parent directories if needed."@
    }

    open spec fn tool_parameters(&self) -> ParamsView {
        file_write_params()
    }

    fn name(&self) -> (r: &str) {
        "file_write"
    }

    fn description(&self) -> (r: &str) {
        "Write content to a file within the persona workspace. Creates parent directories if needed."
    }

    fn parameters(&self) -> (r: ToolParams) {
        ToolParams::none().needing(
            "path",
            PropertyDef::string("Relative path within the persona workspace"),
        ).needing("content", PropertyDef::string("Content to write"))
    }
}

/// A write that is asked for.
#[derive(Debug)]
pub struct WriteRequest {
    pub path: String,
    pub content: String,
}

/// The write that a call asks for. `path` and `content` are the strings that
/// the arguments hold under these names.
pub fn write_arguments(path: Option<String>, content: Option<String>) -> (r: Result<
    WriteRequest,
    String,
>)
    ensures
        match (path, content) {
            (None, _) => r matches Err(e) && e@ == "missing 'path' argument"@,
            (Some(_), None) => r matches Err(e) && e@ == "missing 'content' argument"@,
            (Some(p), Some(c)) => r matches Ok(w) && w.path == p && w.content == c,
        },
{
    match path {
        None => Err("missing 'path' argument".to_owned()),
        Some(path) => match content {
            None => Err("missing 'content' argument".to_owned()),
            Some(content) => Ok(WriteRequest { path, content }),
        },
    }
}

impl FileWriteTool {
    pub fn new(personas_dir: Vec<String>) -> (r: Self)
        ensures
            r.personas_dir == personas_dir,
    {
        FileWriteTool { personas_dir }
    }

    /// The write that a call asks for.
    pub fn requested(&self, args: &str) -> (r: Result<WriteRequest, String>)
        ensures
            match (
                platform::json_string_member(args@, "path"@),
                platform::json_string_member(args@, "content"@),
            ) {
                (None, _) => r matches Err(e) && e@ == "missing 'path' argument"@,
                (Some(_), None) => r matches Err(e) && e@ == "missing 'content' argument"@,
                (Some(p), Some(c)) => r matches Ok(w) && w.path@ == p && w.content@ == c,
            },
    {
        write_arguments(
            platform::string_member(args, "path"),
            platform::string_member(args, "content"),
        )
    }
}

/// The file that a write goes to: `parent` is the deepest part of the path that
/// there is, as it was located, and `rest` what the path names behind it.
pub fn write_target(parent: &Vec<String>, rest: &Vec<String>) -> (r: Vec<String>)
    ensures
        text::texts(r@) == permissions::resolved(text::texts(parent@) + text::texts(rest@)),
{
    let mut path = tool::copy_texts(parent);
    let ghost all = text::texts(parent@) + text::texts(rest@);
    let mut i: usize = 0;
    assert(text::texts(path@) =~= all.take(parent@.len() as int));
    while i < rest.len()
        invariant
            i <= rest@.len(),
            all == text::texts(parent@) + text::texts(rest@),
            text::texts(path@) == all.take(parent@.len() + i),
        decreases rest@.len() - i,
    {
        let ghost before = text::texts(path@);
        path.push(rest[i].clone());
        assert(text::texts(path@) =~= before.push(rest@[i as int]@));
        i = i + 1;
        assert(text::texts(path@) =~= all.take(parent@.len() + i));
    }
    assert(all.take(parent@.len() + i) =~= all);
    permissions::resolve_path(&path)
}

/// A write below a located directory goes to the named file: names behind a
/// path without `.` and `..` are kept as they are.
pub proof fn law_writes_go_below_the_located_parent(parent: Seq<Seq<char>>, rest: Seq<Seq<char>>)
    requires
        permissions::is_plain(parent),
        permissions::is_plain(rest),
    ensures
        permissions::resolved(parent + rest) == parent + rest,
{
    permissions::law_plain_paths_are_resolved(parent);
    permissions::law_names_stay_behind_a_path(parent, rest);
}

/// Whether a path leads into a directory.
pub open spec fn leads_into(path: Seq<Seq<char>>, directory: Seq<Seq<char>>) -> bool {
    permissions::at_or_below(permissions::resolved(path), permissions::resolved(directory))
}

/// The question that a write needs first: none exactly where the target leads
/// into the workspace.
pub fn write_prompt(persona: &str, display: &str, target: &Vec<String>, workspace: &Vec<String>) -> (r:
    Option<String>)
    ensures
        r is None <==> leads_into(text::texts(target@), text::texts(workspace@)),
        r matches Some(prompt) ==> prompt@ == persona@ + " wants to write outside its workspace: "@
            + display@,
{
    let target = permissions::resolve_path(target);
    let workspace = permissions::resolve_path(workspace);
    if permissions::path_starts_with(&target, &workspace) {
        None
    } else {
        Some(
            persona.to_owned().concat(" wants to write outside its workspace: ").concat(display),
        )
    }
}

/// What the user's decision on a write leads to.
pub fn write_decided(approved: bool) -> (r: Result<(), String>)
    ensures
        match r {
            Ok(()) => approved,
            Err(e) => !approved && e@ == "permission denied"@,
        },
{
    if approved {
        Ok(())
    } else {
        Err("permission denied".to_owned())
    }
}

/// A write that goes to an absolute path without a question goes below the
/// workspace: to the components of the workspace, followed by names alone.
pub proof fn law_unasked_writes_stay_inside(target: Seq<Seq<char>>, workspace: Seq<Seq<char>>)
    requires
        permissions::root_len(target) > 0,
        leads_into(target, workspace),
    ensures
        permissions::resolved(target) == permissions::resolved(workspace)
            + permissions::resolved(target).skip(permissions::resolved(workspace).len() as int),
        permissions::is_plain(permissions::resolved(target)),
{
    permissions::law_absolute_paths_become_plain(target);
    let n = permissions::resolved(workspace).len() as int;
    let t = permissions::resolved(target);
    assert(t =~= t.take(n) + t.skip(n));
}

/// What the model is told of a write: the size in bytes.
pub fn written_text(content: &str) -> (r: String)
    ensures
        r@ == "ok: wrote "@ + number::decimal(content.spec_bytes().len() as int) + " bytes"@,
{
    let bytes = content.as_bytes();
    "ok: wrote ".to_owned().concat(number::u64_text(bytes.len() as u64).as_str()).concat(" bytes")
}

// Reminders -----------------------------------------------------------------------------

/// Schedules a reminder.
#[derive(Debug)]
pub struct ScheduleTool {}

/// The parameters of the tool that schedules reminders.
pub open spec fn schedule_params() -> ParamsView {
    tool::needing(
        tool::needing(
            tool::no_params(),
            "message"@,
            tool::string_property("Message content to deliver"@),
        ),
        "trigger_at"@,
        tool::string_property("ISO 8601 datetime when the message should be delivered"@),
    )
}

impl Tool for ScheduleTool {
    open spec fn tool_name(&self) -> Seq<char> {
        "schedule"@
    }

    open spec fn tool_description(&self) -> Seq<char> {
        "Schedule a reminder to be delivered in this conversation at a future time (ISO 8601 trigger_at)."@
    }

    open spec fn tool_parameters(&self) -> ParamsView {
        schedule_params()
    }

    fn name(&self) -> (r: &str) {
        "schedule"
    }

    fn description(&self) -> (r: &str) {
        "Schedule a reminder to be delivered in this conversation at a future time (ISO 8601 trigger_at)."
    }

    fn parameters(&self) -> (r: ToolParams) {
        ToolParams::none().needing(
            "message",
            PropertyDef::string("Message content to deliver"),
        ).needing(
            "trigger_at",
            PropertyDef::string("ISO 8601 datetime when the message should be delivered"),
        )
    }
}

/// A text that is not blank.
pub open spec fn filled(o: Option<Seq<char>>) -> Option<Seq<char>> {
    match o {
        Some(s) if text::trim(s).len() > 0 => Some(s),
        _ => None,
    }
}

fn keep_filled(o: Option<String>) -> (r: Option<String>)
    ensures
        text::opt_text(r) == filled(text::opt_text(o)),
{
    match o {
        Some(s) => if text::is_blank(s.as_str()) {
            None
        } else {
            Some(s)
        },
        None => None,
    }
}

/// The view of a [`Reminder`].
pub struct ReminderView {
    pub at_unix: i64,
    pub conversation: ConversationView,
    pub message: Seq<char>,
}

/// The outcome of scheduling: the reminder and what the model is told, or the
/// error.
pub open spec fn scheduling(
    message: Option<Seq<char>>,
    trigger_at: Option<Seq<char>>,
    instant: Result<i64, Seq<char>>,
    persona: Seq<char>,
    conversation_id: Option<Seq<char>>,
) -> Result<(ReminderView, Seq<char>), Seq<char>> {
    match filled(message) {
        None => Err("missing or empty 'message'"@),
        Some(message) => match filled(trigger_at) {
            None => Err("missing 'trigger_at'"@),
            Some(trigger) => match instant {
                Err(e) => Err("invalid trigger_at (expected ISO 8601): "@ + e),
                Ok(at_unix) => match conversation_id {
                    None => Err("no conversation available for scheduling"@),
                    Some(conversation_id) => Ok(
                        (
                            ReminderView {
                                at_unix,
                                conversation: ConversationView { persona, conversation_id },
                                message,
                            },
                            "已安排于 "@ + trigger + " 提醒"@,
                        ),
                    ),
                },
            },
        },
    }
}

/// The instants of an outcome of reading a date.
pub open spec fn instant_view(instant: Result<i64, String>) -> Result<i64, Seq<char>> {
    match instant {
        Ok(t) => Ok(t),
        Err(e) => Err(e@),
    }
}

/// Whether an outcome of scheduling is the one that a result shows.
pub open spec fn shows(
    r: Result<(Reminder, String), String>,
    outcome: Result<(ReminderView, Seq<char>), Seq<char>>,
) -> bool {
    match outcome {
        Ok(o) => r matches Ok(s) && s.0.at_unix == o.0.at_unix && s.0.conversation@
            == o.0.conversation && s.0.message@ == o.0.message && s.1@ == o.1,
        Err(m) => r matches Err(e) && e@ == m,
    }
}

/// The reminder that a call asks for. `instant` is what reading `trigger_at`
/// as a date gave.
pub fn reminder_from(
    message: Option<String>,
    trigger_at: Option<String>,
    instant: Result<i64, String>,
    persona: &str,
    conversation_id: Option<&str>,
) -> (r: Result<(Reminder, String), String>)
    ensures
        shows(
            r,
            scheduling(
                text::opt_text(message),
                text::opt_text(trigger_at),
                instant_view(instant),
                persona@,
                text::opt_str(conversation_id),
            ),
        ),
{
    let message = match keep_filled(message) {
        Some(m) => m,
        None => {
            return Err("missing or empty 'message'".to_owned());
        },
    };
    let trigger = match keep_filled(trigger_at) {
        Some(t) => t,
        None => {
            return Err("missing 'trigger_at'".to_owned());
        },
    };
    let at_unix = match instant {
        Ok(t) => t,
        Err(e) => {
            return Err(
                "invalid trigger_at (expected ISO 8601): ".to_owned().concat(e.as_str()),
            );
        },
    };
    match conversation_id {
        Some(id) => Ok(
            (
                Reminder { at_unix, conversation: Conversation::new(persona, id), message },
                "已安排于 ".to_owned().concat(trigger.as_str()).concat(" 提醒"),
            ),
        ),
        None => Err("no conversation available for scheduling".to_owned()),
    }
}

impl ScheduleTool {
    pub fn new() -> (r: Self) {
        ScheduleTool {  }
    }

    /// Runs the tool: the reminder to schedule and what the model is told.
    pub fn run(&self, args: &str, persona: &str, conversation_id: Option<&str>) -> (r: Result<
        (Reminder, String),
        String,
    >)
        ensures
            ({
                let trigger = platform::json_string_member(args@, "trigger_at"@);
                shows(
                    r,
                    scheduling(
                        platform::json_string_member(args@, "message"@),
                        trigger,
                        match trigger {
                            Some(t) => platform::rfc3339_instant(t),
                            None => Err(Seq::empty()),
                        },
                        persona@,
                        text::opt_str(conversation_id),
                    ),
                )
            }),
    {
        let message = platform::string_member(args, "message");
        let trigger_at = platform::string_member(args, "trigger_at");
        let instant = match &trigger_at {
            Some(t) => platform::parse_rfc3339(t.as_str()),
            None => {
                let nothing = String::new();
                assert(nothing@ =~= Seq::empty());
                Err(nothing)
            },
        };
        reminder_from(message, trigger_at, instant, persona, conversation_id)
    }
}

// Status --------------------------------------------------------------------------------

/// Reports the state of the program.
#[derive(Debug)]
pub struct StatusTool {}

impl Tool for StatusTool {
    open spec fn tool_name(&self) -> Seq<char> {
        "status"@
    }

    open spec fn tool_description(&self) -> Seq<char> {
        "Get detailed Nota runtime status: version, platform, process id, uptime, and the current persona/conversation"@
    }

    open spec fn tool_parameters(&self) -> ParamsView {
        tool::no_params()
    }

    fn name(&self) -> (r: &str) {
        "status"
    }

    fn description(&self) -> (r: &str) {
        "Get detailed Nota runtime status: version, platform, process id, uptime, and the current persona/conversation"
    }

    fn parameters(&self) -> (r: ToolParams) {
        ToolParams::none()
    }
}

impl StatusTool {
    pub fn new() -> (r: Self) {
        StatusTool {  }
    }
}

impl Default for StatusTool {
    fn default() -> (r: Self) {
        StatusTool {  }
    }
}

// What is asked and what is scheduled -----------------------------------------------------

/// A read asks the user exactly where the path is neither in the workspace nor
/// at or below an allowed path; the question holds the name of the persona and
/// the whole path.
pub proof fn law_reads_ask_outside(
    read: FileRead,
    path: Seq<Seq<char>>,
    allowed: Set<Seq<Seq<char>>>,
)
    ensures
        ({
            let inside = permissions::at_or_below(path, text::texts(read.workspace@))
                || permissions::readable(allowed, path);
            let (phase, step) = on_located(read, path, allowed);
            &&& inside ==> phase is Reading && step is Read
            &&& !inside ==> phase is AskingForLocated && step is Ask && step->Ask_0
                == read.persona@ + " wants to read outside its workspace: "@
                + read.resolved.display@
        }),
        ({
            let named = text::texts(read.resolved.components@);
            let inside = permissions::at_or_below(named, text::texts(read.workspace@))
                || permissions::readable(allowed, named);
            let (phase, step) = on_unlocated(read, allowed);
            &&& inside ==> phase is Relocating && step is Locate
            &&& !inside ==> phase is AskingForUnlocated && step is Ask && step->Ask_0
                == read.persona@ + " wants to read outside its workspace: "@
                + read.resolved.display@
        }),
{
}

/// A refusal ends the read; an approval leads on to the file, which is located
/// first where it was not.
pub proof fn law_decisions_lead_on(read: FileRead)
    ensures
        on_decision(read, false).0 is Refused,
        on_decision(read, false).1 == ReadStepView::Fail("permission denied"@),
        read.phase is AskingForUnlocated ==> on_decision(read, true).0 is Relocating
            && on_decision(read, true).1 is Locate,
        read.phase is AskingForLocated ==> on_decision(read, true).0 is Reading && on_decision(
            read,
            true,
        ).1 is Read,
{
}

/// A reminder carries the whole message at the time that was asked for, to the
/// conversation that asked. It is refused exactly where the message or the time
/// is missing or blank, the time is no date, or there is no conversation.
pub proof fn law_reminders_carry_the_message(
    message: Seq<char>,
    trigger: Seq<char>,
    instant: Result<i64, Seq<char>>,
    persona: Seq<char>,
    conversation_id: Option<Seq<char>>,
)
    ensures
        ({
            let said = exists|i: int|
                0 <= i < message.len() && !text::white_space(#[trigger] message[i]);
            let timed = exists|i: int|
                0 <= i < trigger.len() && !text::white_space(#[trigger] trigger[i]);
            let outcome = scheduling(
                Some(message),
                Some(trigger),
                instant,
                persona,
                conversation_id,
            );
            &&& outcome is Ok <==> said && timed && instant is Ok && conversation_id is Some
            &&& outcome matches Ok(o) ==> {
                &&& o.0.message == message
                &&& o.0.at_unix == instant->Ok_0
                &&& o.0.conversation.persona == persona
                &&& o.0.conversation.conversation_id == conversation_id->Some_0
                &&& o.1 == "已安排于 "@ + trigger + " 提醒"@
            }
            &&& scheduling(None, Some(trigger), instant, persona, conversation_id) is Err
            &&& scheduling(Some(message), None, instant, persona, conversation_id) is Err
            &&& said && timed && instant is Err ==> outcome == Err::<
                (ReminderView, Seq<char>),
                Seq<char>,
            >("invalid trigger_at (expected ISO 8601): "@ + instant->Err_0)
        }),
{
    text::law_blank_texts_are_white_space(message);
    text::law_blank_texts_are_white_space(trigger);
}

/// A write into a directory is one whose path, followed component by
/// component, is that directory with anything behind it.
pub proof fn law_writes_inside_lead_into(workspace: Seq<Seq<char>>, rest: Seq<Seq<char>>)
    requires
        permissions::is_plain(workspace),
        permissions::is_plain(rest),
    ensures
        leads_into(workspace + rest, workspace),
{
    permissions::law_plain_paths_are_resolved(workspace);
    permissions::law_names_stay_behind_a_path(workspace, rest);
    permissions::law_below_means_an_extension(workspace, rest, workspace, Set::empty());
}

/// What a scheduled result shows is what it holds.
pub proof fn law_reminder_views_show_the_reminder(
    r: Result<(Reminder, String), String>,
    at_unix: i64,
    persona: Seq<char>,
    conversation_id: Seq<char>,
    message: Seq<char>,
    told: Seq<char>,
)
    requires
        shows(
            r,
            Ok(
                (
                    ReminderView {
                        at_unix,
                        conversation: ConversationView { persona, conversation_id },
                        message,
                    },
                    told,
                ),
            ),
        ),
    ensures
        r is Ok,
        r->Ok_0.0.at_unix == at_unix,
        r->Ok_0.0.conversation.persona@ == persona,
        r->Ok_0.0.conversation.conversation_id@ == conversation_id,
        r->Ok_0.0.message@ == message,
        r->Ok_0.1@ == told,
{
}

/// A write is asked for exactly where its target does not lead into the
/// workspace; the question names the persona and the path. Only an approval
/// lets it go on.
pub proof fn law_writes_ask_outside(
    persona: &str,
    display: &str,
    target: Vec<String>,
    workspace: Vec<String>,
    prompt: Option<String>,
    approved: bool,
    decided: Result<(), String>,
)
    requires
        call_ensures(write_prompt, (persona, display, &target, &workspace), prompt),
        call_ensures(write_decided, (approved,), decided),
    ensures
        prompt is Some <==> !permissions::at_or_below(
            permissions::resolved(text::texts(target@)),
            permissions::resolved(text::texts(workspace@)),
        ),
        prompt matches Some(p) ==> p@ == persona@ + " wants to write outside its workspace: "@
            + display@,
        decided is Ok <==> approved,
{
}

/// A write keeps its path and its content as they were given.
pub proof fn law_writes_keep_path_and_content(
    path: Option<String>,
    content: Option<String>,
    r: Result<WriteRequest, String>,
)
    requires
        call_ensures(write_arguments, (path, content), r),
    ensures
        r is Ok <==> path is Some && content is Some,
        r matches Ok(w) ==> w.path@ == path->Some_0@ && w.content@ == content->Some_0@,
{
}

} // verus!
