//! The session store: one file for each session, in one directory.

use vstd::prelude::*;
use vstd::string::*;

use crate::domain::session::SessionItem;
use crate::number;
use crate::platform;
use crate::text;

verus! {

// Files -----------------------------------------------------------------------

/// The name of the file of a session.
pub open spec fn file_of(id: Seq<char>) -> Seq<char> {
    id + ".db"@
}

/// The name of the file of a session.
pub fn session_file(id: &str) -> (r: String)
    ensures
        r@ == file_of(id@),
{
    id.to_owned().concat(".db")
}

/// The session whose file has that name.
pub open spec fn session_of(file: Seq<char>) -> Option<Seq<char>> {
    if file.len() > 3 && file.skip(file.len() - 3) == ".db"@ {
        Some(file.take(file.len() - 3))
    } else {
        None
    }
}

/// The session whose file has that name: every name but a bare `.db` that ends
/// in `.db` is one.
pub fn session_id_of(file: &str) -> (r: Option<String>)
    ensures
        text::opt_text(r) == session_of(file@),
{
    proof {
        reveal_strlit(".db");
    }
    let chars = text::chars_of(file);
    let n = chars.len();
    if n > 3 && chars[n - 3] == '.' && chars[n - 2] == 'd' && chars[n - 1] == 'b' {
        assert(chars@.skip(n - 3) =~= ".db"@);
        assert(chars@.subrange(0, n - 3) =~= chars@.take(n - 3));
        Some(text::string_of(&chars, 0, n - 3))
    } else {
        proof {
            if n > 3 && file@.skip(n - 3) == ".db"@ {
                assert(file@.skip(n - 3)[0] == chars@[n - 3]);
                assert(file@.skip(n - 3)[1] == chars@[n - 2]);
                assert(file@.skip(n - 3)[2] == chars@[n - 1]);
            }
        }
        None
    }
}

/// The file of a session is recognised as that session's.
pub proof fn law_session_files_are_recognised(id: Seq<char>)
    requires
        id.len() > 0,
    ensures
        session_of(file_of(id)) == Some(id),
{
    reveal_strlit(".db");
    let file = file_of(id);
    assert(file.skip(file.len() - 3) =~= ".db"@);
    assert(file.take(file.len() - 3) =~= id);
}

// Metadata ----------------------------------------------------------------------

/// A number of the metadata: `raw` is what is stored under the key.
pub fn meta_i64(raw: Option<String>, key: &str, session_id: &str) -> (r: Result<
    Option<i64>,
    String,
>)
    ensures
        match raw {
            None => r == Ok::<Option<i64>, String>(None),
            Some(v) => match number::i64_of(v@) {
                Some(n) => r == Ok::<Option<i64>, String>(Some(n)),
                None => r matches Err(e) && e@ == "bad "@ + key@ + " for "@ + session_id@ + ": "@
                    + platform::i64_error(v@),
            },
        },
{
    match raw {
        None => Ok(None),
        Some(v) => match number::parse_i64(v.as_str()) {
            Some(n) => Ok(Some(n)),
            None => Err(
                "bad ".to_owned().concat(key).concat(" for ").concat(session_id).concat(
                    ": ",
                ).concat(platform::i64_error_text(v.as_str()).as_str()),
            ),
        },
    }
}

/// The greatest of some numbers and zero.
pub open spec fn greatest(seqs: Seq<i64>) -> int
    decreases seqs.len(),
{
    if seqs.len() == 0 {
        0
    } else {
        let before = greatest(seqs.drop_last());
        if seqs.last() > before {
            seqs.last() as int
        } else {
            before
        }
    }
}

/// The sequence number of the next session: one more than the greatest in the
/// directory.
pub fn next_seq(seqs: &Vec<i64>) -> (r: i64)
    requires
        greatest(seqs@) < i64::MAX,
    ensures
        r == greatest(seqs@) + 1,
        forall|i: int| 0 <= i < seqs@.len() ==> #[trigger] seqs@[i] < r,
{
    let mut max: i64 = 0;
    let mut i: usize = 0;
    while i < seqs.len()
        invariant
            i <= seqs@.len(),
            max == greatest(seqs@.take(i as int)),
            forall|j: int| 0 <= j < i ==> #[trigger] seqs@[j] <= max,
        decreases seqs@.len() - i,
    {
        proof {
            let t = seqs@.take(i + 1);
            assert(t.drop_last() =~= seqs@.take(i as int));
            assert(t.last() == seqs@[i as int]);
        }
        if seqs[i] > max {
            max = seqs[i];
        }
        i = i + 1;
    }
    assert(seqs@.take(i as int) =~= seqs@);
    max + 1
}

/// A fresh session: its id and the metadata it is stored with.
#[derive(Debug)]
pub struct NewSession {
    pub id: String,
    pub created_at: i64,
    pub seq: i64,
}

/// A fresh session in a directory that holds sessions with these sequence
/// numbers, created at a time in milliseconds.
pub fn create(seqs: &Vec<i64>, now_millis: i64) -> (r: NewSession)
    requires
        greatest(seqs@) < i64::MAX,
    ensures
        platform::is_uuid_text(r.id@),
        r.created_at == now_millis,
        r.seq == greatest(seqs@) + 1,
{
    NewSession { id: platform::fresh_id(), created_at: now_millis, seq: next_seq(seqs) }
}

// Order ---------------------------------------------------------------------------

/// A stored session.
#[derive(Debug)]
pub struct StoredSession {
    pub id: String,
    pub seq: i64,
    pub created_at: i64,
}

/// Whether a session is listed before another: by sequence number, then by id.
pub open spec fn earlier(a: StoredSession, b: StoredSession) -> bool {
    a.seq < b.seq || (a.seq == b.seq && text::precedes(a.id@, b.id@))
}

/// The sessions in the order of creation.
pub open spec fn in_order(v: Seq<StoredSession>) -> bool {
    forall|i: int, j: int| 0 <= i < j < v.len() ==> !earlier(#[trigger] v[j], #[trigger] v[i])
}

fn is_earlier(a: &StoredSession, b: &StoredSession) -> (r: bool)
    ensures
        r == earlier(*a, *b),
{
    a.seq < b.seq || (a.seq == b.seq && text::comes_before(a.id.as_str(), b.id.as_str()))
}

proof fn lemma_earlier_transitive(a: StoredSession, b: StoredSession, c: StoredSession)
    requires
        !earlier(b, a),
        !earlier(c, b),
    ensures
        !earlier(c, a),
{
    text::lemma_precedes_total(a.id@, b.id@);
    text::lemma_precedes_total(b.id@, c.id@);
    text::lemma_precedes_total(c.id@, a.id@);
    if text::precedes(a.id@, b.id@) && text::precedes(b.id@, c.id@) {
        text::lemma_precedes_transitive(a.id@, b.id@, c.id@);
        text::lemma_precedes_total(a.id@, c.id@);
    }
}

fn insert_sorted(sorted: &mut Vec<StoredSession>, session: StoredSession)
    requires
        in_order(old(sorted)@),
    ensures
        in_order(final(sorted)@),
        final(sorted)@.to_multiset() == old(sorted)@.to_multiset().insert(session),
{
    let ghost before = sorted@;
    let mut k: usize = sorted.len();
    while k > 0 && is_earlier(&session, &sorted[k - 1])
        invariant
            k <= sorted@.len(),
            sorted@ == before,
            forall|i: int| k <= i < sorted@.len() ==> earlier(session, #[trigger] sorted@[i]),
        decreases k,
    {
        k = k - 1;
    }
    sorted.insert(k, session);
    proof {
        let after = sorted@;
        assert forall|i: int, j: int| 0 <= i < j < after.len() implies !earlier(
            #[trigger] after[j],
            #[trigger] after[i],
        ) by {
            if i < k && j == k {
                assert(after[i] == before[i]);
                if i < k - 1 {
                    lemma_earlier_transitive(before[i], before[k - 1], session);
                }
            } else if i == k {
                assert(after[j] == before[j - 1]);
                text::lemma_precedes_total(session.id@, before[j - 1].id@);
            } else {
                let a = if i < k { i } else { i - 1 };
                let b = if j < k { j } else { j - 1 };
                assert(after[i] == before[a]);
                assert(after[j] == before[b]);
            }
        }
        broadcast use vstd::seq_lib::group_to_multiset_ensures;
        assert(after =~= before.insert(k as int, session));
    }
}

/// Every session once, in the order of creation.
pub fn list(sessions: Vec<StoredSession>) -> (r: Vec<StoredSession>)
    ensures
        in_order(r@),
        r@.to_multiset() == sessions@.to_multiset(),
{
    let mut rest = sessions;
    let mut r: Vec<StoredSession> = Vec::new();
    let ghost all = rest@.to_multiset();
    proof {
        broadcast use vstd::seq_lib::group_to_multiset_ensures;
        assert(r@.to_multiset().add(rest@.to_multiset()) =~= all);
    }
    while rest.len() > 0
        invariant
            in_order(r@),
            r@.to_multiset().add(rest@.to_multiset()) == all,
        decreases rest@.len(),
    {
        let ghost before = rest@;
        let ghost done = r@.to_multiset();
        match rest.pop() {
            Some(session) => {
                insert_sorted(&mut r, session);
                proof {
                    broadcast use vstd::seq_lib::group_to_multiset_ensures;
                    assert(before =~= rest@.push(session));
                    assert(before.to_multiset() =~= rest@.to_multiset().insert(session));
                    assert(r@.to_multiset().add(rest@.to_multiset()) =~= done.add(
                        before.to_multiset(),
                    ));
                }
            },
            None => {},
        }
    }
    proof {
        broadcast use vstd::seq_lib::group_to_multiset_ensures;
        assert(rest@.to_multiset() =~= vstd::multiset::Multiset::empty());
        assert(r@.to_multiset() =~= all);
    }
    r
}

/// A session that was created in a directory is listed behind all that were
/// there before.
pub proof fn law_fresh_sessions_come_last(
    present: Seq<StoredSession>,
    seqs: Seq<i64>,
    fresh: StoredSession,
    i: int,
)
    requires
        seqs.len() == present.len(),
        forall|j: int| 0 <= j < present.len() ==> seqs[j] == (#[trigger] present[j]).seq,
        fresh.seq == greatest(seqs) + 1,
        0 <= i < present.len(),
    ensures
        earlier(present[i], fresh),
{
    lemma_greatest(seqs, i);
}

proof fn lemma_greatest(seqs: Seq<i64>, i: int)
    requires
        0 <= i < seqs.len(),
    ensures
        seqs[i] <= greatest(seqs),
    decreases seqs.len(),
{
    if i < seqs.len() - 1 {
        assert(seqs.drop_last()[i] == seqs[i]);
        lemma_greatest(seqs.drop_last(), i);
    }
}

// Rows ------------------------------------------------------------------------------

/// The number that an item is stored under.
pub open spec fn type_number(item: SessionItem) -> u8 {
    match item {
        SessionItem::Message { .. } => 1,
        SessionItem::Reasoning { .. } => 2,
        SessionItem::ToolCall(_) => 3,
        SessionItem::ToolCallOutput { .. } => 4,
        SessionItem::Wait { .. } => 5,
    }
}

/// The number that an item is stored under.
pub fn item_type(item: &SessionItem) -> (r: u8)
    ensures
        r == type_number(*item),
{
    match item {
        SessionItem::Message { .. } => 1,
        SessionItem::Reasoning { .. } => 2,
        SessionItem::ToolCall(_) => 3,
        SessionItem::ToolCallOutput { .. } => 4,
        SessionItem::Wait { .. } => 5,
    }
}

/// Items are stored under fixed numbers.
pub proof fn law_item_numbers_are_fixed(item: SessionItem)
    ensures
        type_number(item) == 1 <==> item is Message,
        type_number(item) == 2 <==> item is Reasoning,
        type_number(item) == 3 <==> item is ToolCall,
        type_number(item) == 4 <==> item is ToolCallOutput,
        type_number(item) == 5 <==> item is Wait,
{
}

/// The file of a session carries the whole id before its ending, and only files
/// with a name before that ending are sessions.
pub proof fn law_files_carry_the_id(id: Seq<char>, file: Seq<char>)
    ensures
        file_of(id) == id + ".db"@,
        session_of(file) matches Some(found) ==> found.len() > 0 && file == found + ".db"@,
        session_of(".db"@) is None,
{
    reveal_strlit(".db");
    if session_of(file) is Some {
        let n = file.len() - 3;
        assert(file =~= file.take(n) + file.skip(n));
    }
}

/// The greatest number is none below zero, at least every number of the list,
/// and zero or one of them.
pub proof fn law_the_greatest_is_one_of_them(seqs: Seq<i64>, i: int)
    ensures
        greatest(seqs) >= 0,
        0 <= i < seqs.len() ==> seqs[i] <= greatest(seqs),
        greatest(seqs) > 0 ==> exists|j: int| 0 <= j < seqs.len() && #[trigger] seqs[j]
            == greatest(seqs),
    decreases seqs.len(),
{
    if seqs.len() > 0 {
        let fewer = seqs.drop_last();
        law_the_greatest_is_one_of_them(fewer, i);
        if 0 <= i < fewer.len() {
            assert(fewer[i] == seqs[i]);
        }
        if greatest(seqs) > 0 {
            if seqs.last() > greatest(fewer) {
                assert(seqs[seqs.len() - 1] == greatest(seqs));
            } else {
                let j = choose|j: int|
                    0 <= j < fewer.len() && #[trigger] fewer[j] == greatest(fewer);
                assert(seqs[j] == greatest(seqs));
            }
        }
    }
}

/// Sessions are listed by number; ids decide only between equal numbers.
pub proof fn law_numbers_order_sessions(a: StoredSession, b: StoredSession)
    ensures
        a.seq < b.seq ==> earlier(a, b) && !earlier(b, a),
        a.seq == b.seq ==> (earlier(a, b) <==> text::precedes(a.id@, b.id@)),
{
}

/// A listing holds every session exactly as often as the directory does, by
/// number from the smallest on.
pub proof fn law_listings_hold_every_session(
    sessions: Vec<StoredSession>,
    r: Vec<StoredSession>,
    s: StoredSession,
    i: int,
    j: int,
)
    requires
        call_ensures(list, (sessions,), r),
    ensures
        r@.to_multiset().count(s) == sessions@.to_multiset().count(s),
        r@.len() == sessions@.len(),
        0 <= i < j < r@.len() ==> r@[i].seq <= r@[j].seq,
{
    broadcast use vstd::seq_lib::group_to_multiset_ensures;

    assert(r@.to_multiset().len() == r@.len());
    assert(sessions@.to_multiset().len() == sessions@.len());
    if 0 <= i < j < r@.len() {
        assert(!earlier(r@[j], r@[i]));
    }
}

/// A fresh session has a number above all that are there, and the time that it
/// was created at.
pub proof fn law_fresh_sessions_are_numbered_last(
    seqs: Vec<i64>,
    now_millis: i64,
    r: NewSession,
    i: int,
)
    requires
        greatest(seqs@) < i64::MAX,
        call_ensures(create, (&seqs, now_millis), r),
    ensures
        0 <= i < seqs@.len() ==> seqs@[i] < r.seq,
        r.seq >= 1,
        r.created_at == now_millis,
{
    law_the_greatest_is_one_of_them(seqs@, i);
}

/// A number of the metadata is read as it was stored; none was stored where
/// there is none, and anything else is an error that names the key and the
/// session.
pub proof fn law_metadata_are_read_as_stored(
    raw: Option<String>,
    key: &str,
    session_id: &str,
    n: i64,
    r: Result<Option<i64>, String>,
)
    requires
        call_ensures(meta_i64, (raw, key, session_id), r),
    ensures
        raw is None ==> r == Ok::<Option<i64>, String>(None),
        raw is Some && raw->Some_0@ == number::decimal(n as int) ==> r == Ok::<
            Option<i64>,
            String,
        >(Some(n)),
        raw is Some && number::i64_of(raw->Some_0@) is None ==> r is Err && r->Err_0@ == "bad "@
            + key@ + " for "@ + session_id@ + ": "@ + platform::i64_error(raw->Some_0@),
{
    number::law_integer_text_round_trips(n as int);
}

} // verus!
