//! Permissions: questions that wait for the user's decision, and the paths
//! that the user allowed to be read.

use vstd::prelude::*;
use vstd::string::*;

use crate::domain::conversation::{ConversationManager, Routed};
use crate::domain::conversation;
use crate::domain::session;
use crate::platform;
use crate::table::Table;
use crate::text;

verus! {

/// The questions that wait for a decision, by id.
pub struct PermissionRegistry {
    pending: Table<String, bool>,
}

impl View for PermissionRegistry {
    type V = Set<Seq<char>>;

    closed spec fn view(&self) -> Set<Seq<char>> {
        self.pending@.dom()
    }
}

impl PermissionRegistry {
    pub fn new() -> (r: Self)
        ensures
            r@ == Set::<Seq<char>>::empty(),
    {
        let r = PermissionRegistry { pending: Table::new() };
        assert(r@ =~= Set::<Seq<char>>::empty());
        r
    }

    /// Registers a question under an id.
    pub fn register_as(&mut self, id: &str)
        ensures
            final(self)@ == old(self)@.insert(id@),
    {
        let ghost before = self@;
        self.pending.insert(id.to_owned(), true);
        assert(self@ =~= before.insert(id@));
    }

    /// Registers a question under a fresh id and gives the id.
    pub fn register(&mut self) -> (r: String)
        ensures
            platform::is_uuid_text(r@),
            final(self)@ == old(self)@.insert(r@),
    {
        let id = platform::fresh_id();
        self.register_as(id.as_str());
        id
    }

    /// Decides a question. Gives the decision that its asker is to be told, or
    /// `None` where no such question waits. A question is decided once.
    pub fn resolve(&mut self, id: &str, approved: bool) -> (r: Option<bool>)
        ensures
            final(self)@ == old(self)@.remove(id@),
            r == (if old(self)@.contains(id@) {
                Some(approved)
            } else {
                None
            }),
    {
        let ghost before = self@;
        let found = self.pending.remove(&id.to_owned());
        assert(self@ =~= before.remove(id@));
        if found.is_some() {
            Some(approved)
        } else {
            None
        }
    }
}

impl Default for PermissionRegistry {
    fn default() -> (r: Self)
        ensures
            r@ == Set::<Seq<char>>::empty(),
    {
        PermissionRegistry::new()
    }
}

/// Who is asking: the context of a tool call.
#[derive(Debug)]
pub struct ToolContext {
    pub persona_name: String,
    pub request_id: Option<String>,
}

impl ToolContext {
    /// Asks the user of a conversation. Gives the id under which the decision
    /// will come and where the question goes.
    pub fn request_permission(
        &self,
        permissions: &mut PermissionRegistry,
        manager: &ConversationManager,
        conversation_id: &str,
        prompt: &str,
    ) -> (r: (String, Routed))
        ensures
            platform::is_uuid_text(r.0@),
            final(permissions)@ == old(permissions)@.insert(r.0@),
            r.1.recipients@ == conversation::subscribed(
                manager@.outboxes,
                conversation::prefix_of(conversation_id@),
            ),
            r.1.event@ == (conversation::EventView::Permission {
                conversation_id: conversation_id@,
                permission_id: r.0@,
                prompt: prompt@,
                parent_request_id: text::opt_text(self.request_id),
            }),
    {
        let id = permissions.register();
        let routed = manager.send_permission(
            conversation_id,
            id.as_str(),
            prompt,
            session::copy_opt(&self.request_id),
        );
        (id, routed)
    }
}

/// The decision that an asker goes by: no answer means no.
pub fn decision(answer: Option<bool>) -> (r: bool)
    ensures
        r == (answer == Some(true)),
{
    match answer {
        Some(approved) => approved,
        None => false,
    }
}

// Paths ------------------------------------------------------------------------

/// Whether the components of a path begin with those of another. Of paths
/// without `.` and `..` this says that the first lies at or below the second.
pub open spec fn at_or_below(path: Seq<Seq<char>>, prefix: Seq<Seq<char>>) -> bool {
    prefix.len() <= path.len() && path.take(prefix.len() as int) == prefix
}

/// Whether a component is the prefix of a Windows path: a drive, or a name that
/// begins with two backslashes.
pub open spec fn is_prefix(component: Seq<char>) -> bool {
    ||| component.len() == 2 && component[1] == ':'
    ||| component.len() > 2 && component[0] == '\\' && component[1] == '\\'
}

/// How many components at the front of a path are its root: a slash or a
/// backslash, or a backslash behind a prefix. Elsewhere these are names.
pub open spec fn root_len(path: Seq<Seq<char>>) -> int {
    if path.len() > 0 && (path[0] == "/"@ || path[0] == "\\"@) {
        1
    } else if path.len() > 1 && is_prefix(path[0]) && path[1] == "\\"@ {
        2
    } else {
        0
    }
}

/// A resolved path with one more component: `.` stays where it is, `..` goes
/// up, but not beyond the root.
pub open spec fn entered(path: Seq<Seq<char>>, component: Seq<char>) -> Seq<Seq<char>> {
    if component == "."@ {
        path
    } else if component == ".."@ {
        if path.len() == 0 || path.last() == ".."@ {
            path.push(component)
        } else if path.len() == root_len(path) {
            path
        } else {
            path.drop_last()
        }
    } else {
        path.push(component)
    }
}

/// The path that components lead to, one after another.
pub open spec fn resolved(path: Seq<Seq<char>>) -> Seq<Seq<char>>
    decreases path.len(),
{
    if path.len() == 0 {
        Seq::empty()
    } else {
        entered(resolved(path.drop_last()), path.last())
    }
}

fn has_prefix_form(component: &str) -> (r: bool)
    ensures
        r == is_prefix(component@),
{
    let chars = text::chars_of(component);
    (chars.len() == 2 && chars[1] == ':') || (chars.len() > 2 && chars[0] == '\\' && chars[1]
        == '\\')
}

fn find_root(path: &Vec<String>) -> (r: usize)
    ensures
        r == root_len(text::texts(path@)),
{
    let ghost all = text::texts(path@);
    if path.len() > 0 {
        assert(all[0] == path@[0]@);
        if text::str_eq(path[0].as_str(), "/") || text::str_eq(path[0].as_str(), "\\") {
            return 1;
        }
    }
    if path.len() > 1 {
        assert(all[1] == path@[1]@);
        if has_prefix_form(path[0].as_str()) && text::str_eq(path[1].as_str(), "\\") {
            return 2;
        }
    }
    0
}

/// The path that components lead to: `.` and `..` are resolved.
pub fn resolve_path(path: &Vec<String>) -> (r: Vec<String>)
    ensures
        text::texts(r@) == resolved(text::texts(path@)),
{
    let mut r: Vec<String> = Vec::new();
    let ghost all = text::texts(path@);
    let mut i: usize = 0;
    assert(text::texts(r@) =~= resolved(all.take(0)));
    while i < path.len()
        invariant
            i <= path@.len(),
            all == text::texts(path@),
            text::texts(r@) == resolved(all.take(i as int)),
        decreases path@.len() - i,
    {
        let ghost before = text::texts(r@);
        let component = &path[i];
        proof {
            let t = all.take(i + 1);
            assert(t.drop_last() =~= all.take(i as int));
            assert(t.last() == component@);
        }
        let n = r.len();
        if n > 0 {
            assert(before.last() == r@[n - 1]@);
        }
        if text::str_eq(component.as_str(), ".") {
        } else if !text::str_eq(component.as_str(), "..") || n == 0 || text::str_eq(
            r[n - 1].as_str(),
            "..",
        ) {
            r.push(component.clone());
            assert(text::texts(r@) =~= before.push(component@));
        } else if n != find_root(&r) {
            r.pop();
            assert(text::texts(r@) =~= before.drop_last());
        }
        i = i + 1;
    }
    assert(all.take(i as int) =~= all);
    r
}

/// Whether a path has neither `.` nor `..`.
pub open spec fn is_plain(path: Seq<Seq<char>>) -> bool {
    forall|i: int| 0 <= i < path.len() ==> #[trigger] path[i] != "."@ && path[i] != ".."@
}

/// A path without `.` and `..` leads to itself.
pub proof fn law_plain_paths_are_resolved(path: Seq<Seq<char>>)
    requires
        is_plain(path),
    ensures
        resolved(path) == path,
    decreases path.len(),
{
    if path.len() > 0 {
        assert forall|i: int| 0 <= i < path.drop_last().len() implies #[trigger] path.drop_last()[i]
            != "."@ && path.drop_last()[i] != ".."@ by {
            assert(path.drop_last()[i] == path[i]);
        }
        law_plain_paths_are_resolved(path.drop_last());
        assert(path.last() == path[path.len() - 1]);
        assert(path.drop_last().push(path.last()) =~= path);
    } else {
        assert(path =~= Seq::empty());
    }
}

/// Names behind a path stay names behind what the path leads to.
pub proof fn law_names_stay_behind_a_path(path: Seq<Seq<char>>, names: Seq<Seq<char>>)
    requires
        is_plain(names),
    ensures
        resolved(path + names) == resolved(path) + names,
    decreases names.len(),
{
    if names.len() > 0 {
        let fewer = names.drop_last();
        assert forall|i: int| 0 <= i < fewer.len() implies #[trigger] fewer[i] != "."@ && fewer[i]
            != ".."@ by {
            assert(fewer[i] == names[i]);
        }
        law_names_stay_behind_a_path(path, fewer);
        assert(names.last() == names[names.len() - 1]);
        assert((path + names).drop_last() =~= path + fewer);
        assert((path + names).last() == names.last());
        assert((resolved(path) + fewer).push(names.last()) =~= resolved(path) + names);
    } else {
        assert(path + names =~= path);
        assert(resolved(path) + names =~= resolved(path));
    }
}

/// What an absolute path leads to is a path with the same root and without `.`
/// and `..`.
pub proof fn law_absolute_paths_become_plain(path: Seq<Seq<char>>)
    requires
        root_len(path) > 0,
    ensures
        resolved(path).len() >= root_len(path),
        resolved(path).take(root_len(path)) == path.take(root_len(path)),
        root_len(resolved(path)) == root_len(path),
        is_plain(resolved(path)),
    decreases path.len(),
{
    reveal_strlit(".");
    reveal_strlit("..");
    reveal_strlit("/");
    reveal_strlit("\\");
    assert("."@[0] == '.' && ".."@[0] == '.' && ".."@[1] == '.' && "/"@[0] == '/' && "\\"@[0]
        == '\\');
    let n = root_len(path);
    let shorter = path.drop_last();
    let before = resolved(shorter);
    let after = resolved(path);
    if path.len() == 1 {
        assert(shorter =~= Seq::empty());
        assert(after =~= path);
    } else if n == 2 && path.len() == 2 {
        assert(shorter =~= seq![path[0]]);
        assert(shorter.drop_last() =~= Seq::empty());
        assert(resolved(shorter.drop_last()) =~= Seq::empty());
        assert(path[0] != "."@ && path[0] != ".."@);
        assert(before == entered(Seq::empty(), path[0]));
        assert(before =~= shorter);
        assert(after =~= path);
    } else {
        assert(root_len(shorter) == n);
        assert(shorter.take(n) =~= path.take(n));
        law_absolute_paths_become_plain(shorter);
        assert(before.last() == before[before.len() - 1]);
        assert(after.take(n) =~= before.take(n));
        assert forall|i: int| 0 <= i < n implies #[trigger] after[i] == path[i] by {
            assert(after.take(n)[i] == path.take(n)[i]);
        }
        assert forall|i: int| 0 <= i < after.len() implies #[trigger] after[i] != "."@ && after[i]
            != ".."@ by {
            if i < before.len() {
                assert(after[i] == before[i]);
            }
        }
    }
}

/// A path that goes up from a directory and then to another name leads out of
/// the directory.
pub proof fn law_going_up_leads_out(directory: Seq<Seq<char>>, name: Seq<char>)
    requires
        is_plain(directory),
        directory.len() > root_len(directory),
        name != "."@,
        name != ".."@,
        name != directory.last(),
    ensures
        resolved(directory + seq![".."@, name]) == directory.drop_last().push(name),
        !at_or_below(resolved(directory + seq![".."@, name]), resolved(directory)),
{
    reveal_strlit(".");
    reveal_strlit("..");
    assert("."@.len() == 1 && ".."@.len() == 2);
    let up = directory.push(".."@);
    let path = directory + seq![".."@, name];
    law_plain_paths_are_resolved(directory);
    assert(directory.last() == directory[directory.len() - 1]);
    assert(up.drop_last() =~= directory);
    assert(resolved(up) == directory.drop_last());
    assert(path.drop_last() =~= up);
    assert(path.last() == name);
    let n = directory.len() as int;
    if at_or_below(resolved(path), directory) {
        assert(resolved(path).take(n)[n - 1] == name);
    }
}

/// Whether the components of a path begin with those of another.
pub fn path_starts_with(path: &Vec<String>, prefix: &Vec<String>) -> (r: bool)
    ensures
        r == at_or_below(text::texts(path@), text::texts(prefix@)),
{
    let ghost p = text::texts(path@);
    let ghost q = text::texts(prefix@);
    if prefix.len() > path.len() {
        return false;
    }
    let mut i: usize = 0;
    while i < prefix.len()
        invariant
            i <= prefix@.len() <= path@.len(),
            p == text::texts(path@),
            q == text::texts(prefix@),
            forall|j: int| 0 <= j < i ==> p[j] == #[trigger] q[j],
        decreases prefix@.len() - i,
    {
        assert(p[i as int] == path@[i as int]@);
        assert(q[i as int] == prefix@[i as int]@);
        if !text::str_eq(path[i].as_str(), prefix[i].as_str()) {
            assert(p.take(q.len() as int)[i as int] == p[i as int]);
            return false;
        }
        i = i + 1;
    }
    assert(p.take(q.len() as int) =~= q);
    true
}

/// The paths that the user allowed to be read outside the workspace.
pub struct PathPolicy {
    allowed: Vec<Vec<String>>,
}

impl View for PathPolicy {
    type V = Set<Seq<Seq<char>>>;

    closed spec fn view(&self) -> Set<Seq<Seq<char>>> {
        Set::new(|p: Seq<Seq<char>>| allows(self.allowed@, p))
    }
}

spec fn allows(allowed: Seq<Vec<String>>, prefix: Seq<Seq<char>>) -> bool {
    exists|i: int| 0 <= i < allowed.len() && text::texts((#[trigger] allowed[i])@) == prefix
}

/// Whether a path may be read under a set of allowed prefixes.
pub open spec fn readable(allowed: Set<Seq<Seq<char>>>, path: Seq<Seq<char>>) -> bool {
    exists|prefix: Seq<Seq<char>>| #[trigger] allowed.contains(prefix) && at_or_below(path, prefix)
}

impl PathPolicy {
    pub fn new() -> (r: Self)
        ensures
            r@ == Set::<Seq<Seq<char>>>::empty(),
    {
        let r = PathPolicy { allowed: Vec::new() };
        assert(r@ =~= Set::<Seq<Seq<char>>>::empty());
        r
    }

    /// Allows everything at and below what a path leads to.
    pub fn allow_read(&mut self, path: Vec<String>)
        ensures
            final(self)@ == old(self)@.insert(resolved(text::texts(path@))),
    {
        let ghost before = self.allowed@;
        let allowed = resolve_path(&path);
        let ghost shown = text::texts(allowed@);
        self.allowed.push(allowed);
        let ghost after = self.allowed@;
        assert forall|p: Seq<Seq<char>>| #[trigger] allows(after, p) <==> allows(before, p) || p
            == shown by {
            if allows(before, p) {
                let i = choose|i: int|
                    0 <= i < before.len() && text::texts((#[trigger] before[i])@) == p;
                assert(after[i] == before[i]);
            }
            if p == shown {
                assert(text::texts(after[before.len() as int]@) == p);
            }
            if allows(after, p) {
                let i = choose|i: int|
                    0 <= i < after.len() && text::texts((#[trigger] after[i])@) == p;
                if i < before.len() {
                    assert(after[i] == before[i]);
                }
            }
        }
        assert(self@ =~= old(self)@.insert(shown));
    }

    /// Whether a path may be read.
    pub fn is_read_allowed(&self, path: &Vec<String>) -> (r: bool)
        ensures
            r == readable(self@, text::texts(path@)),
    {
        let mut i: usize = 0;
        let ghost shown = text::texts(path@);
        while i < self.allowed.len()
            invariant
                i <= self.allowed@.len(),
                shown == text::texts(path@),
                forall|j: int|
                    0 <= j < i ==> !at_or_below(
                        shown,
                        text::texts((#[trigger] self.allowed@[j])@),
                    ),
            decreases self.allowed@.len() - i,
        {
            if path_starts_with(path, &self.allowed[i]) {
                proof {
                    let prefix = text::texts(self.allowed@[i as int]@);
                    assert(allows(self.allowed@, prefix));
                    assert(self@.contains(prefix));
                }
                return true;
            }
            i = i + 1;
        }
        proof {
            if readable(self@, shown) {
                let prefix = choose|prefix: Seq<Seq<char>>| #[trigger]
                    self@.contains(prefix) && at_or_below(shown, prefix);
                assert(allows(self.allowed@, prefix));
            }
        }
        false
    }
}

impl Default for PathPolicy {
    fn default() -> (r: Self)
        ensures
            r@ == Set::<Seq<Seq<char>>>::empty(),
    {
        PathPolicy::new()
    }
}

/// What is readable stays readable when more is allowed, and everything below a
/// readable path is readable. Once a path is allowed, what it leads to is
/// readable, and so is what any path of names behind it leads to.
pub proof fn law_allowed_paths_are_readable(
    allowed: Set<Seq<Seq<char>>>,
    path: Seq<Seq<char>>,
    more: Seq<Seq<char>>,
    below: Seq<Seq<char>>,
)
    ensures
        readable(allowed, path) ==> readable(allowed.insert(more), path),
        readable(allowed, path) ==> readable(allowed, path + below),
        readable(allowed.insert(resolved(path)), resolved(path)),
        is_plain(below) ==> readable(allowed.insert(resolved(path)), resolved(path + below)),
{
    if readable(allowed, path) {
        let prefix = choose|prefix: Seq<Seq<char>>| #[trigger]
            allowed.contains(prefix) && at_or_below(path, prefix);
        assert(allowed.insert(more).contains(prefix));
        let n = prefix.len() as int;
        assert((path + below).take(n) =~= path.take(n));
        assert(at_or_below(path + below, prefix));
    }
    let end = resolved(path);
    assert(end.take(end.len() as int) =~= end);
    assert(allowed.insert(end).contains(end));
    if is_plain(below) {
        law_names_stay_behind_a_path(path, below);
        assert((end + below).take(end.len() as int) =~= end);
        assert(at_or_below(end + below, end));
    }
}

/// A path is at or below another exactly where it is that path with anything
/// behind it; what may be read is at or below an allowed path.
pub proof fn law_below_means_an_extension(
    path: Seq<Seq<char>>,
    rest: Seq<Seq<char>>,
    other: Seq<Seq<char>>,
    allowed: Set<Seq<Seq<char>>>,
)
    ensures
        at_or_below(path + rest, path),
        at_or_below(path, path),
        at_or_below(other, path) ==> other == path + other.skip(path.len() as int),
        allowed.contains(path) ==> readable(allowed, path + rest),
        readable(allowed, other) ==> exists|prefix: Seq<Seq<char>>| #[trigger]
            allowed.contains(prefix) && other == prefix + other.skip(prefix.len() as int),
{
    let n = path.len() as int;
    assert((path + rest).take(n) =~= path);
    assert(path.take(n) =~= path);
    if at_or_below(other, path) {
        assert(other =~= other.take(n) + other.skip(n));
    }
    if readable(allowed, other) {
        let prefix = choose|prefix: Seq<Seq<char>>| #[trigger]
            allowed.contains(prefix) && at_or_below(other, prefix);
        let k = prefix.len() as int;
        assert(other =~= other.take(k) + other.skip(k));
    }
}

/// A path is followed component by component: `.` stays, `..` behind a name
/// takes the name back, and at the root it stays.
pub proof fn law_paths_are_followed(path: Seq<Seq<char>>, name: Seq<char>)
    requires
        name != "."@,
        name != ".."@,
    ensures
        resolved(Seq::empty()) == Seq::<Seq<char>>::empty(),
        resolved(path.push("."@)) == resolved(path),
        resolved(path.push(name)) == resolved(path).push(name),
        resolved(path).push(name).len() > root_len(resolved(path).push(name)) ==> resolved(
            path.push(name).push(".."@),
        ) == resolved(path),
        resolved(path).len() > 0 && resolved(path).len() == root_len(resolved(path)) ==> resolved(
            path.push(".."@),
        ) == resolved(path),
        resolved(path).len() == 0 || resolved(path).last() == ".."@ ==> resolved(
            path.push(".."@),
        ) == resolved(path).push(".."@),
{
    reveal_strlit(".");
    reveal_strlit("..");
    reveal_strlit("/");
    reveal_strlit("\\");
    assert("."@.len() == 1 && ".."@.len() == 2 && "/"@.len() == 1 && "\\"@.len() == 1);
    assert(path.push(".."@).drop_last() =~= path);
    assert(path.push("."@).drop_last() =~= path);
    assert(path.push(name).drop_last() =~= path);
    let longer = path.push(name).push(".."@);
    assert(longer.drop_last() =~= path.push(name));
    let inner = resolved(path).push(name);
    assert(resolved(path.push(name)) == inner);
    assert(inner.last() == name);
    assert(inner.drop_last() =~= resolved(path));
    assert(longer.last() == ".."@);
    assert(resolved(longer) == entered(inner, ".."@));
}

/// A path is rooted where it begins with a slash or a backslash, or with a
/// drive or a network name and a backslash behind it; names are no roots.
pub proof fn law_roots_are_recognised(path: Seq<Seq<char>>, rest: Seq<Seq<char>>, drive: char)
    ensures
        root_len(seq!["/"@] + rest) == 1,
        root_len(seq!["\\"@] + rest) == 1,
        is_prefix(seq![drive, ':']),
        drive != '/' && drive != '\\' ==> root_len(seq![seq![drive, ':'], "\\"@] + rest) == 2,
        path.len() > 0 && path[0] != "/"@ && path[0] != "\\"@ && !is_prefix(path[0]) ==> root_len(
            path,
        ) == 0,
{
    reveal_strlit("/");
    reveal_strlit("\\");
    assert("/"@.len() == 1 && "\\"@.len() == 1);
    assert(seq![drive, ':'].len() == 2);
}

/// A question is decided once, as the user decided it: the first decision is
/// told, and no later one.
pub proof fn law_questions_are_decided_once(
    registry: &mut PermissionRegistry,
    id: &str,
    approved: bool,
    r: Option<bool>,
)
    requires
        call_ensures(PermissionRegistry::resolve, (registry, id, approved), r),
    ensures
        r is Some <==> old(registry)@.contains(id@),
        r is Some ==> r == Some(approved),
        !final(registry)@.contains(id@),
        forall|other: Seq<char>|
            other != id@ ==> (#[trigger] final(registry)@.contains(other) == old(
                registry,
            )@.contains(other)),
{
}

/// Only an approval counts as one: no answer means no.
pub proof fn law_no_answer_means_no(answer: Option<bool>, r: bool)
    requires
        call_ensures(decision, (answer,), r),
    ensures
        r <==> answer is Some && answer->Some_0,
{
}

} // verus!
