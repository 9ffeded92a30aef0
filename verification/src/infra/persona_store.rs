//! Persona files and chat logs: where they lie and how a log is framed.
//!
//! A log holds one JSON entry on each line. Old logs that are one JSON array
//! are still read, and rewritten line by line when something is appended.

use vstd::prelude::*;
use vstd::string::*;

use crate::table::Table;
use crate::text;

verus! {

/// The file that holds the personality.
pub const SOLO_FILENAME: &'static str = "solo.md";

/// The file that holds the memory.
pub const MEMORY_FILENAME: &'static str = "memory.md";

/// The file that holds a chat log.
pub const HISTORY_FILENAME: &'static str = "chatlog.jsonl";

// Places ------------------------------------------------------------------------

/// Where the files lie, as lists of path components.
pub struct FilePersonaStore {
    pub personas_dir: Vec<String>,
    pub sessions_dir: Vec<String>,
}

fn below(dir: &Vec<String>, name: &str) -> (r: Vec<String>)
    ensures
        text::texts(r@) == text::texts(dir@).push(name@),
{
    let mut r: Vec<String> = Vec::new();
    let mut i: usize = 0;
    while i < dir.len()
        invariant
            i <= dir@.len(),
            r@ == dir@.take(i as int),
        decreases dir@.len() - i,
    {
        r.push(dir[i].clone());
        i = i + 1;
        assert(r@ =~= dir@.take(i as int));
    }
    r.push(name.to_owned());
    assert(text::texts(r@) =~= text::texts(dir@).push(name@));
    r
}

impl FilePersonaStore {
    pub fn new(base_dir: &Vec<String>) -> (r: Self)
        ensures
            text::texts(r.personas_dir@) == text::texts(base_dir@).push("personas"@),
            text::texts(r.sessions_dir@) == text::texts(base_dir@).push("sessions"@),
    {
        FilePersonaStore {
            personas_dir: below(base_dir, "personas"),
            sessions_dir: below(base_dir, "sessions"),
        }
    }

    /// The directory of a persona.
    pub fn workspace(&self, name: &str) -> (r: Vec<String>)
        ensures
            text::texts(r@) == text::texts(self.personas_dir@).push(name@),
    {
        below(&self.personas_dir, name)
    }

    /// The chat log of a session.
    pub fn history_path(&self, session_id: &str) -> (r: Vec<String>)
        ensures
            text::texts(r@) == text::texts(self.sessions_dir@).push(session_id@).push(
                HISTORY_FILENAME@,
            ),
    {
        below(&below(&self.sessions_dir, session_id), HISTORY_FILENAME)
    }
}

/// The personality that a fresh persona gets: the template with the name put
/// in.
pub fn solo_text(template: &str, name: &str) -> (r: String)
    ensures
        r@ == text::replaced(template@, "{name}"@, name@),
{
    proof {
        reveal_strlit("{name}");
    }
    text::replace(template, "{name}", name)
}

/// The error of a missing persona file.
pub fn missing_file(name: &str, filename: &str) -> (r: String)
    ensures
        r@ == "persona file not found: "@ + name@ + "/"@ + filename@,
{
    "persona file not found: ".to_owned().concat(name).concat("/").concat(filename)
}

/// An entry of the personas directory.
#[derive(Debug)]
pub struct DirEntry {
    /// The name, where it is text.
    pub name: Option<String>,
    pub is_dir: bool,
    /// Whether the personality file is in it.
    pub has_solo: bool,
}

/// The name of the persona that an entry holds.
pub open spec fn persona_of(entry: DirEntry) -> Option<Seq<char>> {
    if entry.is_dir && entry.has_solo {
        text::opt_text(entry.name)
    } else {
        None
    }
}

/// The names of the personas in a directory, in its order.
pub open spec fn personas_of(entries: Seq<DirEntry>) -> Seq<Seq<char>>
    decreases entries.len(),
{
    if entries.len() == 0 {
        Seq::empty()
    } else {
        let before = personas_of(entries.drop_last());
        match persona_of(entries.last()) {
            Some(name) => before.push(name),
            None => before,
        }
    }
}

/// The names of the personas in a directory.
pub fn list_personas(entries: &Vec<DirEntry>) -> (r: Vec<String>)
    ensures
        text::texts(r@) == personas_of(entries@),
{
    let mut r: Vec<String> = Vec::new();
    let mut i: usize = 0;
    assert(text::texts(r@) =~= personas_of(entries@.take(0)));
    while i < entries.len()
        invariant
            i <= entries@.len(),
            text::texts(r@) == personas_of(entries@.take(i as int)),
        decreases entries@.len() - i,
    {
        let ghost before = text::texts(r@);
        proof {
            let t = entries@.take(i + 1);
            assert(t.drop_last() =~= entries@.take(i as int));
            assert(t.last() == entries@[i as int]);
        }
        if entries[i].is_dir && entries[i].has_solo {
            match &entries[i].name {
                Some(name) => {
                    r.push(name.clone());
                    assert(text::texts(r@) =~= before.push(name@));
                },
                None => {},
            }
        }
        i = i + 1;
    }
    assert(entries@.take(i as int) =~= entries@);
    r
}

// The cache of file contents ----------------------------------------------------------

/// When a file was last changed.
#[derive(Debug, Clone, Copy, PartialEq, Eq, Structural)]
pub struct Stamp {
    pub seconds: i64,
    pub nanos: u32,
}

/// The contents of files with the time of their last change.
pub struct FileCache {
    files: Table<String, (String, Stamp)>,
}

impl View for FileCache {
    type V = Map<Seq<char>, (String, Stamp)>;

    closed spec fn view(&self) -> Map<Seq<char>, (String, Stamp)> {
        self.files@
    }
}

impl FileCache {
    pub fn new() -> (r: Self)
        ensures
            r@ == Map::<Seq<char>, (String, Stamp)>::empty(),
    {
        FileCache { files: Table::new() }
    }

    /// The content of a file, where it was cached and has not changed since.
    pub fn get(&self, path: &String, modified: Stamp) -> (r: Option<String>)
        ensures
            r == (if self@.dom().contains(path@) && self@[path@].1 == modified {
                Some(self@[path@].0)
            } else {
                None
            }),
    {
        match self.files.get(path) {
            Some(cached) => if cached.1 == modified {
                Some(cached.0.clone())
            } else {
                None
            },
            None => None,
        }
    }

    /// Keeps the content of a file.
    pub fn keep(&mut self, path: String, content: String, modified: Stamp)
        ensures
            final(self)@ == old(self)@.insert(path@, (content, modified)),
    {
        self.files.insert(path, (content, modified));
    }

    /// Forgets a file.
    pub fn invalidate(&mut self, path: &String)
        ensures
            final(self)@ == old(self)@.remove(path@),
    {
        self.files.remove(path);
    }
}

// Logs ------------------------------------------------------------------------------

/// Whether a log is one JSON array.
pub open spec fn is_array_log(content: Seq<char>) -> bool {
    text::trim_start(content).len() > 0 && text::trim_start(content)[0] == '['
}

/// Whether a log is one JSON array.
pub fn is_legacy(content: &str) -> (r: bool)
    ensures
        r == is_array_log(content@),
{
    let start = text::trimmed_start(content);
    let chars = text::chars_of(start.as_str());
    chars.len() > 0 && chars[0] == '['
}

/// The lines of a text.
pub open spec fn lines(s: Seq<char>) -> Seq<Seq<char>>
    decreases s.len(),
{
    let k = text::first_index(s, '\n');
    proof {
        text::lemma_first_index(s, '\n');
    }
    if k < s.len() {
        seq![s.take(k)] + lines(s.skip(k + 1))
    } else {
        seq![s]
    }
}

/// The lines without surrounding white space, blank ones left out.
pub open spec fn full_lines(all: Seq<Seq<char>>) -> Seq<Seq<char>>
    decreases all.len(),
{
    if all.len() == 0 {
        Seq::empty()
    } else {
        let line = text::trim(all[0]);
        let rest = full_lines(all.drop_first());
        if line.len() == 0 {
            rest
        } else {
            seq![line] + rest
        }
    }
}

/// The texts of the entries of a log with one entry on each line.
pub fn log_lines(content: &str) -> (r: Vec<String>)
    ensures
        text::texts(r@) == full_lines(lines(content@)),
{
    let mut r: Vec<String> = Vec::new();
    let mut rest: String = content.to_owned();
    let ghost all = full_lines(lines(content@));
    assert(text::texts(r@) + full_lines(lines(rest@)) =~= all);
    loop
        invariant_except_break
            all == text::texts(r@) + full_lines(lines(rest@)),
        ensures
            all == text::texts(r@),
        decreases rest@.len(),
    {
        let ghost before = text::texts(r@);
        let ghost now = rest@;
        proof {
            text::lemma_first_index(now, '\n');
        }
        let parts = text::split_once(rest.as_str(), '\n');
        let last = parts.is_none();
        let (line, after) = match parts {
            Some((line, after)) => (line, after),
            None => (rest.clone(), String::new()),
        };
        proof {
            reveal_with_fuel(full_lines, 2);
            if last {
                assert(lines(now) =~= seq![line@]);
                assert(lines(now).drop_first() =~= Seq::empty());
            } else {
                assert(lines(now)[0] == line@);
                assert(lines(now).drop_first() =~= lines(after@));
            }
        }
        let trimmed = text::trimmed(line.as_str());
        let ghost kept = trimmed@;
        if !text::is_empty(trimmed.as_str()) {
            r.push(trimmed);
            proof {
                assert(text::texts(r@) =~= before.push(kept));
                let tail = full_lines(lines(now).drop_first());
                assert(before + (seq![kept] + tail) =~= before.push(kept) + tail);
            }
        }
        if last {
            assert(text::texts(r@) + Seq::<Seq<char>>::empty() =~= text::texts(r@));
            break;
        }
        rest = after;
    }
    r
}

/// Entries as a log holds them: each on a line of its own.
pub open spec fn framed(entries: Seq<Seq<char>>) -> Seq<char>
    decreases entries.len(),
{
    if entries.len() == 0 {
        Seq::empty()
    } else {
        entries[0].push('\n') + framed(entries.drop_first())
    }
}

/// What is appended to a log for new entries.
pub fn appended_text(entries: &Vec<String>) -> (r: String)
    ensures
        r@ == framed(text::texts(entries@)),
{
    let mut r: String = String::new();
    let ghost all = text::texts(entries@);
    let mut i: usize = 0;
    assert(all.skip(0) =~= all);
    assert(r@ + framed(all) =~= framed(all));
    while i < entries.len()
        invariant
            i <= entries@.len(),
            all == text::texts(entries@),
            framed(all) == r@ + framed(all.skip(i as int)),
        decreases entries@.len() - i,
    {
        let ghost before = r@;
        let ghost rest = all.skip(i as int);
        r.append(entries[i].as_str());
        r.push('\n');
        proof {
            assert(rest[0] == entries@[i as int]@);
            assert(rest.drop_first() =~= all.skip(i + 1));
            let tail = framed(all.skip(i + 1));
            assert(before + (rest[0].push('\n') + tail) =~= r@ + tail);
        }
        i = i + 1;
    }
    assert(all.skip(i as int) =~= Seq::empty());
    assert(r@ + Seq::<char>::empty() =~= r@);
    r
}

/// The whole text of an array log that is rewritten: its entries and the new
/// ones, each on a line of its own.
pub fn migrated_text(entries: &Vec<String>) -> (r: String)
    ensures
        r@ == text::joined(text::texts(entries@), "\n"@) + "\n"@,
{
    text::join(entries, "\n").concat("\n")
}

/// Whether the text of an entry can stand on a line: it is not blank, holds no
/// line feed and no white space at its ends.
pub open spec fn is_entry(s: Seq<char>) -> bool {
    s.len() > 0 && !s.contains('\n') && text::trim(s) == s
}

proof fn lemma_lines_front(line: Seq<char>, rest: Seq<char>)
    requires
        !line.contains('\n'),
    ensures
        lines(line.push('\n') + rest) == seq![line] + lines(rest),
{
    let s = line.push('\n') + rest;
    assert forall|i: int| 0 <= i < line.len() implies s[i] != '\n' by {
        assert(s[i] == line[i]);
        assert(line.contains(line[i]));
    }
    text::lemma_first_index_is(s, '\n', line.len() as int);
    assert(s.take(line.len() as int) =~= line);
    assert(s.skip(line.len() as int + 1) =~= rest);
}

/// What was written to a log is read back: the entries, in order, and nothing
/// else.
pub proof fn law_log_gives_back_what_was_written(entries: Seq<Seq<char>>)
    requires
        forall|i: int| 0 <= i < entries.len() ==> is_entry(#[trigger] entries[i]),
    ensures
        full_lines(lines(framed(entries))) == entries,
    decreases entries.len(),
{
    if entries.len() == 0 {
        let none = Seq::<char>::empty();
        text::lemma_first_index(none, '\n');
        assert(lines(none) =~= seq![none]);
        assert(seq![none].drop_first() =~= Seq::empty());
        reveal_with_fuel(full_lines, 2);
        assert(full_lines(seq![none]) =~= entries);
    } else {
        let rest = entries.drop_first();
        assert forall|i: int| 0 <= i < rest.len() implies is_entry(#[trigger] rest[i]) by {
            assert(rest[i] == entries[i + 1]);
        }
        law_log_gives_back_what_was_written(rest);
        assert(is_entry(entries[0]));
        lemma_lines_front(entries[0], framed(rest));
        let all = lines(framed(entries));
        assert(all.drop_first() =~= lines(framed(rest)));
        assert(seq![entries[0]] + rest =~= entries);
    }
}

/// Appending to a log adds the new entries behind the old ones.
pub proof fn law_appending_extends_the_log(old_entries: Seq<Seq<char>>, more: Seq<Seq<char>>)
    ensures
        framed(old_entries) + framed(more) == framed(old_entries + more),
    decreases old_entries.len(),
{
    if old_entries.len() == 0 {
        assert(framed(old_entries) + framed(more) =~= framed(more));
        assert(old_entries + more =~= more);
    } else {
        law_appending_extends_the_log(old_entries.drop_first(), more);
        let all = old_entries + more;
        assert(all.drop_first() =~= old_entries.drop_first() + more);
        assert(framed(old_entries) + framed(more) =~= framed(all));
    }
}

/// A rewritten array log reads like one that was written line by line.
pub proof fn law_migrated_log_is_framed(entries: Seq<Seq<char>>)
    requires
        entries.len() > 0,
    ensures
        text::joined(entries, "\n"@) + "\n"@ == framed(entries),
    decreases entries.len(),
{
    reveal_strlit("\n");
    reveal_with_fuel(framed, 2);
    if entries.len() == 1 {
        assert(entries.drop_first() =~= Seq::empty());
        assert(framed(entries) =~= text::joined(entries, "\n"@) + "\n"@);
    } else {
        let front = entries.drop_last();
        let last = seq![entries.last()];
        law_migrated_log_is_framed(front);
        law_appending_extends_the_log(front, last);
        assert(last.drop_first() =~= Seq::empty());
        assert(framed(last) =~= entries.last().push('\n'));
        assert(front + last =~= entries);
        assert(text::joined(entries, "\n"@) + "\n"@ =~= framed(front) + framed(last));
    }
}

/// The indices of the entries since a time, all where none is given.
pub open spec fn indices_since(stamps: Seq<i64>, since: Option<i64>) -> Seq<usize>
    decreases stamps.len(),
{
    if stamps.len() == 0 {
        Seq::empty()
    } else {
        let before = indices_since(stamps.drop_last(), since);
        let kept = match since {
            Some(t) => stamps.last() >= t,
            None => true,
        };
        if kept {
            before.push((stamps.len() - 1) as usize)
        } else {
            before
        }
    }
}

/// The indices of the entries since a time.
pub fn entries_since(stamps: &Vec<i64>, since: Option<i64>) -> (r: Vec<usize>)
    ensures
        r@ == indices_since(stamps@, since),
{
    let mut r: Vec<usize> = Vec::new();
    let mut i: usize = 0;
    while i < stamps.len()
        invariant
            i <= stamps@.len(),
            r@ == indices_since(stamps@.take(i as int), since),
        decreases stamps@.len() - i,
    {
        proof {
            let t = stamps@.take(i + 1);
            assert(t.drop_last() =~= stamps@.take(i as int));
            assert(t.last() == stamps@[i as int]);
        }
        let kept = match since {
            Some(t) => stamps[i] >= t,
            None => true,
        };
        if kept {
            r.push(i);
        }
        i = i + 1;
    }
    assert(stamps@.take(i as int) =~= stamps@);
    r
}

/// Personas are the directories that hold a personality file and have a name
/// that is text, all of them and in the order of the directory.
pub proof fn law_personas_are_directories_with_a_personality(
    first: Seq<DirEntry>,
    second: Seq<DirEntry>,
    entry: DirEntry,
)
    ensures
        personas_of(Seq::empty()) == Seq::<Seq<char>>::empty(),
        personas_of(first + second) == personas_of(first) + personas_of(second),
        entry.is_dir && entry.has_solo && entry.name is Some ==> personas_of(seq![entry]) == seq![
            entry.name->Some_0@,
        ],
        !(entry.is_dir && entry.has_solo && entry.name is Some) ==> personas_of(
            seq![entry],
        ).len() == 0,
{
    lemma_personas_extend(first, second);
    reveal_with_fuel(personas_of, 2);
    assert(seq![entry].drop_last() =~= Seq::empty());
    assert(seq![entry].last() == entry);
    if entry.is_dir && entry.has_solo && entry.name is Some {
        assert(personas_of(seq![entry]) =~= seq![entry.name->Some_0@]);
    }
}

proof fn lemma_personas_extend(first: Seq<DirEntry>, second: Seq<DirEntry>)
    ensures
        personas_of(first + second) == personas_of(first) + personas_of(second),
    decreases second.len(),
{
    if second.len() == 0 {
        assert(first + second =~= first);
        assert(personas_of(first) + personas_of(second) =~= personas_of(first));
    } else {
        lemma_personas_extend(first, second.drop_last());
        assert((first + second).drop_last() =~= first + second.drop_last());
        assert((first + second).last() == second.last());
        assert(personas_of(first + second) =~= personas_of(first) + personas_of(second));
    }
}

/// A log is an array exactly where its first visible character opens one.
pub proof fn law_arrays_begin_with_a_bracket(before: Seq<char>, c: char, after: Seq<char>)
    requires
        text::all_white(before),
        !text::white_space(c),
    ensures
        is_array_log(before + (seq![c] + after)) <==> c == '[',
        !is_array_log(before),
{
    let s = before + (seq![c] + after);
    text::law_trimming_the_start(s);
    let t = text::trim_start(s);
    let k = s.len() - t.len();
    assert(s[before.len() as int] == c);
    if k > before.len() {
        assert(s.take(k)[before.len() as int] == c);
    } else {
        assert(s =~= s.take(k) + t);
        assert(t.len() > 0);
        assert(t[0] == (s.take(k) + t)[k]);
        assert(t[0] == s[k]);
        if k < before.len() {
            assert(before[k] == s[k]);
            assert(text::white_space(before[k]));
        }
    }
    text::law_trimming_the_start(before);
    let u = text::trim_start(before);
    if u.len() > 0 {
        let j = before.len() - u.len();
        assert((before.take(j) + u)[j] == u[0]);
        assert(before[j] == u[0]);
    }
}

/// Lines end at line feeds, and the entries of a log are its lines that are not
/// blank, in order and without the white space around them.
pub proof fn law_lines_end_at_line_feeds(
    line: Seq<char>,
    rest: Seq<char>,
    first: Seq<Seq<char>>,
    second: Seq<Seq<char>>,
)
    requires
        !line.contains('\n'),
    ensures
        lines(line) == seq![line],
        lines(line.push('\n') + rest) == seq![line] + lines(rest),
        full_lines(first + second) == full_lines(first) + full_lines(second),
        text::trim(line).len() > 0 ==> full_lines(seq![line]) == seq![text::trim(line)],
        text::trim(line).len() == 0 ==> full_lines(seq![line]).len() == 0,
{
    text::lemma_first_index(line, '\n');
    if text::first_index(line, '\n') < line.len() {
        assert(line.contains(line[text::first_index(line, '\n')]));
    }
    lemma_lines_front(line, rest);
    lemma_full_lines_extend(first, second);
    reveal_with_fuel(full_lines, 2);
    assert(seq![line].drop_first() =~= Seq::empty());
    if text::trim(line).len() > 0 {
        assert(full_lines(seq![line]) =~= seq![text::trim(line)]);
    }
}

proof fn lemma_full_lines_extend(first: Seq<Seq<char>>, second: Seq<Seq<char>>)
    ensures
        full_lines(first + second) == full_lines(first) + full_lines(second),
    decreases first.len(),
{
    if first.len() == 0 {
        assert(first + second =~= second);
        assert(full_lines(first) + full_lines(second) =~= full_lines(second));
    } else {
        lemma_full_lines_extend(first.drop_first(), second);
        assert((first + second).drop_first() =~= first.drop_first() + second);
        assert((first + second)[0] == first[0]);
        assert(full_lines(first + second) =~= full_lines(first) + full_lines(second));
    }
}

/// Each entry of a log stands on a line of its own, whole.
pub proof fn law_entries_stand_on_their_own_line(entry: Seq<char>)
    ensures
        framed(Seq::empty()) == Seq::<char>::empty(),
        framed(seq![entry]) == entry.push('\n'),
{
    reveal_with_fuel(framed, 2);
    assert(seq![entry].drop_first() =~= Seq::empty());
    assert(framed(seq![entry]) =~= entry.push('\n'));
}

/// The entries since a time are exactly those at that time or later, in order;
/// without a time they are all.
pub proof fn law_entries_since_a_time(stamps: Seq<i64>, since: Option<i64>, k: usize)
    requires
        stamps.len() <= usize::MAX,
    ensures
        indices_since(stamps, since).contains(k) <==> k < stamps.len() && (since is None
            || stamps[k as int] >= since->Some_0),
        forall|i: int, j: int|
            0 <= i < j < indices_since(stamps, since).len() ==> #[trigger] indices_since(
                stamps,
                since,
            )[i] < #[trigger] indices_since(stamps, since)[j],
    decreases stamps.len(),
{
    lemma_since(stamps, since);
    let all = indices_since(stamps, since);
    if all.contains(k) {
        let i = choose|i: int| 0 <= i < all.len() && all[i] == k;
        assert(all[i] < stamps.len());
    }
    if k < stamps.len() && (since is None || stamps[k as int] >= since->Some_0) {
        lemma_since_holds(stamps, since, k);
    }
}

proof fn lemma_since(stamps: Seq<i64>, since: Option<i64>)
    requires
        stamps.len() <= usize::MAX,
    ensures
        forall|i: int|
            0 <= i < indices_since(stamps, since).len() ==> (#[trigger] indices_since(
                stamps,
                since,
            )[i]) < stamps.len() && (since is None || stamps[indices_since(
                stamps,
                since,
            )[i] as int] >= since->Some_0),
        forall|i: int, j: int|
            0 <= i < j < indices_since(stamps, since).len() ==> #[trigger] indices_since(
                stamps,
                since,
            )[i] < #[trigger] indices_since(stamps, since)[j],
    decreases stamps.len(),
{
    if stamps.len() > 0 {
        let fewer = stamps.drop_last();
        lemma_since(fewer, since);
        let before = indices_since(fewer, since);
        let all = indices_since(stamps, since);
        assert forall|i: int| 0 <= i < all.len() implies (#[trigger] all[i]) < stamps.len() && (
        since is None || stamps[all[i] as int] >= since->Some_0) by {
            if i < before.len() {
                assert(all[i] == before[i]);
                assert(fewer[before[i] as int] == stamps[before[i] as int]);
            }
        }
        assert forall|i: int, j: int| 0 <= i < j < all.len() implies #[trigger] all[i]
            < #[trigger] all[j] by {
            assert(all[i] == before[i]);
            if j < before.len() {
                assert(all[j] == before[j]);
            }
        }
    }
}

proof fn lemma_since_holds(stamps: Seq<i64>, since: Option<i64>, k: usize)
    requires
        stamps.len() <= usize::MAX,
        k < stamps.len(),
        since is None || stamps[k as int] >= since->Some_0,
    ensures
        indices_since(stamps, since).contains(k),
    decreases stamps.len(),
{
    let fewer = stamps.drop_last();
    let before = indices_since(fewer, since);
    let all = indices_since(stamps, since);
    if k == stamps.len() - 1 {
        assert(all[before.len() as int] == k);
    } else {
        assert(fewer[k as int] == stamps[k as int]);
        lemma_since_holds(fewer, since, k);
        let i = choose|i: int| 0 <= i < before.len() && before[i] == k;
        assert(all[i] == k);
    }
}

/// The files of a persona and of a session lie below their directories, each
/// under its own name: different names have different places.
pub proof fn law_files_lie_in_their_own_place(
    store: FilePersonaStore,
    a: &str,
    b: &str,
    workspace_a: Vec<String>,
    workspace_b: Vec<String>,
    history: Vec<String>,
)
    requires
        call_ensures(FilePersonaStore::workspace, (&store, a), workspace_a),
        call_ensures(FilePersonaStore::workspace, (&store, b), workspace_b),
        call_ensures(FilePersonaStore::history_path, (&store, a), history),
    ensures
        text::texts(workspace_a@) == text::texts(store.personas_dir@).push(a@),
        a@ != b@ ==> text::texts(workspace_a@) != text::texts(workspace_b@),
        text::texts(history@) == text::texts(store.sessions_dir@).push(a@).push("chatlog.jsonl"@),
{
    if text::texts(workspace_a@) == text::texts(workspace_b@) {
        assert(text::texts(workspace_a@).last() == a@);
        assert(text::texts(workspace_b@).last() == b@);
    }
}

/// The personality of a fresh persona is the template with the name in place of
/// its mark.
pub proof fn law_personalities_carry_the_name(
    before: Seq<char>,
    after: Seq<char>,
    template: &str,
    name: &str,
    r: String,
)
    requires
        call_ensures(solo_text, (template, name), r),
        template@ == before + "{name}"@ + after,
        !before.contains('{'),
        !after.contains('{'),
    ensures
        r@ == before + name@ + after,
{
    reveal_strlit("{name}");
    text::law_replacing_changes_the_pattern_only(before, "{name}"@, name@, after);
    text::law_replacing_changes_the_pattern_only(after, "{name}"@, name@, after);
}

} // verus!
