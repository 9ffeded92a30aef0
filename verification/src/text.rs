//! Text primitives over the characters of a string.
//!
//! Every function states its result over `Seq<char>`, the view of `str` and
//! `String`.

use vstd::prelude::*;
use vstd::string::*;
use vstd::utf8::*;

verus! {

/// `String::push` appends one character at the end of the string.
pub assume_specification[ std::string::String::push ](s: &mut std::string::String, c: char)
    ensures
        final(s)@ == old(s)@.push(c),
;

/// The characters of `s`, in order.
pub fn chars_of(s: &str) -> (r: Vec<char>)
    ensures
        r@ == s@,
{
    let mut r: Vec<char> = Vec::new();
    for c in it: s.chars()
        invariant
            it.seq() == s@,
            r@ == s@.take(it.index() as int),
    {
        r.push(c);
        assert(r@ =~= s@.take(it.index() + 1));
    }
    assert(s@.take(s@.len() as int) =~= s@);
    r
}

/// The string made of the characters `from..to` of `chars`.
pub fn string_of(chars: &Vec<char>, from: usize, to: usize) -> (r: String)
    requires
        from <= to <= chars@.len(),
    ensures
        r@ == chars@.subrange(from as int, to as int),
{
    let mut r = String::new();
    let mut i: usize = from;
    while i < to
        invariant
            from <= i <= to <= chars@.len(),
            r@ == chars@.subrange(from as int, i as int),
        decreases to - i,
    {
        r.push(chars[i]);
        i = i + 1;
        assert(r@ =~= chars@.subrange(from as int, i as int));
    }
    r
}

/// Whether two strings hold the same characters.
pub fn str_eq(a: &str, b: &str) -> (r: bool)
    ensures
        r == (a@ == b@),
{
    let x = a.as_bytes();
    let y = b.as_bytes();
    proof {
        encode_utf8_decode_utf8(a@);
        encode_utf8_decode_utf8(b@);
    }
    if x.len() != y.len() {
        return false;
    }
    let mut i: usize = 0;
    while i < x.len()
        invariant
            i <= x@.len(),
            x@.len() == y@.len(),
            x@ == a.spec_bytes(),
            y@ == b.spec_bytes(),
            forall|j: int| 0 <= j < i ==> x@[j] == y@[j],
        decreases x@.len() - i,
    {
        if x[i] != y[i] {
            return false;
        }
        i = i + 1;
    }
    assert(x@ =~= y@);
    true
}

// White space -----------------------------------------------------------

/// The characters with the Unicode property `White_Space`.
pub open spec fn white_space(c: char) -> bool {
    ||| '\u{9}' <= c <= '\u{d}'
    ||| c == '\u{20}'
    ||| c == '\u{85}'
    ||| c == '\u{a0}'
    ||| c == '\u{1680}'
    ||| '\u{2000}' <= c <= '\u{200a}'
    ||| c == '\u{2028}'
    ||| c == '\u{2029}'
    ||| c == '\u{202f}'
    ||| c == '\u{205f}'
    ||| c == '\u{3000}'
}

/// Whether `c` is white space.
pub fn is_whitespace(c: char) -> (r: bool)
    ensures
        r == white_space(c),
{
    ('\u{9}' <= c && c <= '\u{d}') || c == '\u{20}' || c == '\u{85}' || c == '\u{a0}'
        || c == '\u{1680}' || ('\u{2000}' <= c && c <= '\u{200a}') || c == '\u{2028}'
        || c == '\u{2029}' || c == '\u{202f}' || c == '\u{205f}' || c == '\u{3000}'
}

/// `s` without the white space at its start.
pub open spec fn trim_start(s: Seq<char>) -> Seq<char>
    decreases s.len(),
{
    if s.len() > 0 && white_space(s[0]) {
        trim_start(s.drop_first())
    } else {
        s
    }
}

/// `s` without the white space at its end.
pub open spec fn trim_end(s: Seq<char>) -> Seq<char>
    decreases s.len(),
{
    if s.len() > 0 && white_space(s.last()) {
        trim_end(s.drop_last())
    } else {
        s
    }
}

/// `s` without the white space at both ends.
pub open spec fn trim(s: Seq<char>) -> Seq<char> {
    trim_end(trim_start(s))
}

/// `s` without the white space at its start.
pub fn trimmed_start(s: &str) -> (r: String)
    ensures
        r@ == trim_start(s@),
{
    let chars = chars_of(s);
    let mut i: usize = 0;
    assert(chars@.skip(0) =~= chars@);
    while i < chars.len() && is_whitespace(chars[i])
        invariant
            i <= chars@.len(),
            trim_start(chars@) == trim_start(chars@.skip(i as int)),
        decreases chars@.len() - i,
    {
        assert(chars@.skip(i as int).drop_first() =~= chars@.skip(i + 1));
        i = i + 1;
    }
    assert(chars@.subrange(i as int, chars@.len() as int) =~= chars@.skip(i as int));
    string_of(&chars, i, chars.len())
}

/// `s` without the white space at both ends.
pub fn trimmed(s: &str) -> (r: String)
    ensures
        r@ == trim(s@),
{
    let start = trimmed_start(s);
    let chars = chars_of(start.as_str());
    let mut n: usize = chars.len();
    assert(chars@.take(n as int) =~= chars@);
    while n > 0 && is_whitespace(chars[n - 1])
        invariant
            n <= chars@.len(),
            trim_end(chars@) == trim_end(chars@.take(n as int)),
        decreases n,
    {
        assert(chars@.take(n as int).drop_last() =~= chars@.take(n - 1));
        n = n - 1;
    }
    assert(chars@.subrange(0, n as int) =~= chars@.take(n as int));
    string_of(&chars, 0, n)
}

/// Whether `s` holds nothing but white space.
pub fn is_blank(s: &str) -> (r: bool)
    ensures
        r == (trim(s@).len() == 0),
{
    let t = trimmed(s);
    t.as_str().is_empty()
}

/// A text is blank exactly when every character of it is white space.
pub proof fn law_blank_texts_are_white_space(s: Seq<char>)
    ensures
        trim(s).len() == 0 <==> forall|i: int| 0 <= i < s.len() ==> white_space(s[i]),
{
    lemma_trim_start_blank(s);
    let t = trim_start(s);
    lemma_trim_end_empty(t);
    if t.len() > 0 {
        lemma_trim_start_head(s);
    }
}

proof fn lemma_trim_start_head(s: Seq<char>)
    ensures
        trim_start(s).len() > 0 ==> !white_space(trim_start(s)[0]),
    decreases s.len(),
{
    if s.len() > 0 && white_space(s[0]) {
        lemma_trim_start_head(s.drop_first());
    }
}

proof fn lemma_trim_start_blank(s: Seq<char>)
    ensures
        trim_start(s).len() == 0 <==> forall|i: int| 0 <= i < s.len() ==> white_space(s[i]),
    decreases s.len(),
{
    if s.len() > 0 && white_space(s[0]) {
        let rest = s.drop_first();
        lemma_trim_start_blank(rest);
        if trim_start(rest).len() == 0 {
            assert forall|i: int| 0 <= i < s.len() implies white_space(s[i]) by {
                if i > 0 {
                    assert(rest[i - 1] == s[i]);
                }
            }
        } else {
            let j = choose|j: int| 0 <= j < rest.len() && !white_space(rest[j]);
            assert(s[j + 1] == rest[j]);
        }
    }
}

proof fn lemma_trim_end_empty(s: Seq<char>)
    ensures
        s.len() > 0 && !white_space(s[0]) ==> trim_end(s).len() > 0,
        s.len() == 0 ==> trim_end(s).len() == 0,
    decreases s.len(),
{
    if s.len() > 0 && white_space(s.last()) {
        if s.len() > 1 {
            assert(s.drop_last()[0] == s[0]);
        }
        lemma_trim_end_empty(s.drop_last());
    }
}

// Prefixes and separators -----------------------------------------------

/// Whether `s` starts with `prefix`.
pub open spec fn has_prefix(s: Seq<char>, prefix: Seq<char>) -> bool {
    prefix.len() <= s.len() && s.take(prefix.len() as int) == prefix
}

/// What follows `prefix` in `s`, where `s` starts with it.
pub open spec fn after_prefix(s: Seq<char>, prefix: Seq<char>) -> Option<Seq<char>> {
    if has_prefix(s, prefix) {
        Some(s.skip(prefix.len() as int))
    } else {
        None
    }
}

/// The view of an optional string.
pub open spec fn opt_text(o: Option<String>) -> Option<Seq<char>> {
    match o {
        Some(s) => Some(s@),
        None => None,
    }
}

/// The texts of an outcome.
pub open spec fn outcome(o: Result<String, String>) -> Result<Seq<char>, Seq<char>> {
    match o {
        Ok(s) => Ok(s@),
        Err(e) => Err(e@),
    }
}

/// The view of an optional string slice.
pub open spec fn opt_str(o: Option<&str>) -> Option<Seq<char>> {
    match o {
        Some(s) => Some(s@),
        None => None,
    }
}

/// The views of a sequence of strings.
pub open spec fn texts(v: Seq<String>) -> Seq<Seq<char>> {
    v.map_values(|s: String| s@)
}

/// What follows `prefix` in `s`, where `s` starts with it.
pub fn strip_prefix(s: &str, prefix: &str) -> (r: Option<String>)
    ensures
        opt_text(r) == after_prefix(s@, prefix@),
{
    let a = chars_of(s);
    let p = chars_of(prefix);
    if a.len() < p.len() {
        return None;
    }
    let mut i: usize = 0;
    while i < p.len()
        invariant
            i <= p@.len() <= a@.len(),
            p@ == prefix@,
            a@ == s@,
            forall|j: int| 0 <= j < i ==> a@[j] == p@[j],
        decreases p@.len() - i,
    {
        if a[i] != p[i] {
            assert(a@.take(p@.len() as int)[i as int] == a@[i as int]);
            return None;
        }
        i = i + 1;
    }
    assert(a@.take(p@.len() as int) =~= p@);
    assert(a@.subrange(p@.len() as int, a@.len() as int) =~= a@.skip(p@.len() as int));
    Some(string_of(&a, p.len(), a.len()))
}

/// Whether `s` starts with `prefix`.
pub fn starts_with(s: &str, prefix: &str) -> (r: bool)
    ensures
        r == has_prefix(s@, prefix@),
{
    strip_prefix(s, prefix).is_some()
}

/// The place of the first `c` in `s`, or the length of `s` where there is none.
pub open spec fn first_index(s: Seq<char>, c: char) -> int
    decreases s.len(),
{
    if s.len() == 0 || s[0] == c {
        0
    } else {
        1 + first_index(s.drop_first(), c)
    }
}

/// `first_index` is the first place that holds the character.
pub proof fn lemma_first_index(s: Seq<char>, c: char)
    ensures
        0 <= first_index(s, c) <= s.len(),
        first_index(s, c) < s.len() ==> s[first_index(s, c)] == c,
        forall|i: int| 0 <= i < first_index(s, c) ==> s[i] != c,
    decreases s.len(),
{
    if s.len() > 0 && s[0] != c {
        let rest = s.drop_first();
        lemma_first_index(rest, c);
        assert forall|i: int| 0 <= i < first_index(s, c) implies s[i] != c by {
            if i > 0 {
                assert(rest[i - 1] == s[i]);
            }
        }
    }
}

/// A place that holds `c`, with no `c` before it, is the first place of `c`.
pub proof fn lemma_first_index_is(s: Seq<char>, c: char, k: int)
    requires
        0 <= k <= s.len(),
        forall|i: int| 0 <= i < k ==> s[i] != c,
        k < s.len() ==> s[k] == c,
    ensures
        first_index(s, c) == k,
{
    lemma_first_index(s, c);
}

/// The place of the first `c` in `chars`, or their number where there is none.
pub fn find_char(chars: &Vec<char>, c: char) -> (r: usize)
    ensures
        r == first_index(chars@, c),
        r <= chars@.len(),
{
    let mut i: usize = 0;
    while i < chars.len()
        invariant
            i <= chars@.len(),
            forall|j: int| 0 <= j < i ==> chars@[j] != c,
        decreases chars@.len() - i,
    {
        if chars[i] == c {
            proof {
                lemma_first_index_is(chars@, c, i as int);
            }
            return i;
        }
        i = i + 1;
    }
    proof {
        lemma_first_index_is(chars@, c, i as int);
    }
    i
}

/// The two parts of `s` around its first `c`.
pub open spec fn split_at_char(s: Seq<char>, c: char) -> Option<(Seq<char>, Seq<char>)> {
    let k = first_index(s, c);
    if k < s.len() {
        Some((s.take(k), s.skip(k + 1)))
    } else {
        None
    }
}

/// The two parts of `s` around its first `c`.
pub fn split_once(s: &str, c: char) -> (r: Option<(String, String)>)
    ensures
        match r {
            Some((a, b)) => split_at_char(s@, c) == Some((a@, b@)),
            None => split_at_char(s@, c) is None,
        },
{
    let chars = chars_of(s);
    let k = find_char(&chars, c);
    if k < chars.len() {
        assert(chars@.subrange(0, k as int) =~= chars@.take(k as int));
        assert(chars@.subrange(k + 1, chars@.len() as int) =~= chars@.skip(k + 1));
        Some((string_of(&chars, 0, k), string_of(&chars, k + 1, chars.len())))
    } else {
        None
    }
}

// Joining ---------------------------------------------------------------

/// The parts one after another, with `sep` between neighbours.
pub open spec fn joined(parts: Seq<Seq<char>>, sep: Seq<char>) -> Seq<char>
    decreases parts.len(),
{
    if parts.len() == 0 {
        Seq::empty()
    } else if parts.len() == 1 {
        parts[0]
    } else {
        joined(parts.drop_last(), sep) + sep + parts.last()
    }
}

/// The parts one after another, with `sep` between neighbours.
pub fn join(parts: &Vec<String>, sep: &str) -> (r: String)
    ensures
        r@ == joined(texts(parts@), sep@),
{
    let mut r = String::new();
    let ghost all = texts(parts@);
    let mut i: usize = 0;
    assert(all.take(0) =~= Seq::empty());
    while i < parts.len()
        invariant
            i <= parts@.len(),
            all == texts(parts@),
            r@ == joined(all.take(i as int), sep@),
        decreases parts@.len() - i,
    {
        if i > 0 {
            r.append(sep);
        }
        r.append(parts[i].as_str());
        assert(all.take(i + 1).drop_last() =~= all.take(i as int));
        assert(all.take(i + 1).last() == parts@[i as int]@);
        if i == 0 {
            assert(all.take(1)[0] == parts@[0]@);
        }
        i = i + 1;
    }
    assert(all.take(i as int) =~= all);
    r
}

/// The concatenation of the parts.
pub open spec fn concatenated(parts: Seq<Seq<char>>) -> Seq<char>
    decreases parts.len(),
{
    if parts.len() == 0 {
        Seq::empty()
    } else {
        concatenated(parts.drop_last()) + parts.last()
    }
}

/// `n` times the character `c`.
pub fn repeat_char(c: char, n: usize) -> (r: String)
    ensures
        r@ == Seq::new(n as nat, |i: int| c),
{
    let mut r = String::new();
    let mut i: usize = 0;
    while i < n
        invariant
            i <= n,
            r@ == Seq::new(i as nat, |j: int| c),
        decreases n - i,
    {
        r.push(c);
        i = i + 1;
        assert(r@ =~= Seq::new(i as nat, |j: int| c));
    }
    r
}

/// Whether a text has no characters.
pub fn is_empty(s: &str) -> (r: bool)
    ensures
        r == (s@.len() == 0),
{
    s.is_empty()
}

// Replacing -------------------------------------------------------------

/// `s` with every occurrence of `pattern`, found from left to right, replaced.
pub open spec fn replaced(s: Seq<char>, pattern: Seq<char>, with: Seq<char>) -> Seq<char>
    decreases s.len(),
{
    if s.len() == 0 || pattern.len() == 0 {
        s
    } else if has_prefix(s, pattern) {
        with + replaced(s.skip(pattern.len() as int), pattern, with)
    } else {
        seq![s[0]] + replaced(s.drop_first(), pattern, with)
    }
}

/// `s` with every occurrence of `pattern` replaced.
pub fn replace(s: &str, pattern: &str, with: &str) -> (r: String)
    requires
        pattern@.len() > 0,
    ensures
        r@ == replaced(s@, pattern@, with@),
{
    let chars = chars_of(s);
    let wanted = chars_of(pattern);
    let mut r = String::new();
    let mut i: usize = 0;
    assert(chars@.skip(0) =~= chars@);
    while i < chars.len()
        invariant
            i <= chars@.len(),
            wanted@ == pattern@,
            wanted@.len() > 0,
            replaced(chars@, pattern@, with@) == r@ + replaced(
                chars@.skip(i as int),
                pattern@,
                with@,
            ),
        decreases chars@.len() - i,
    {
        let ghost rest = chars@.skip(i as int);
        let ghost before = r@;
        let mut k: usize = 0;
        while k < wanted.len() && k < chars.len() - i && chars[i + k] == wanted[k]
            invariant
                i < chars@.len(),
                k <= wanted@.len(),
                k <= chars@.len() - i,
                rest == chars@.skip(i as int),
                forall|j: int| 0 <= j < k ==> rest[j] == wanted@[j],
            decreases wanted@.len() - k,
        {
            assert(rest[k as int] == chars@[i + k]);
            k = k + 1;
        }
        if k == wanted.len() {
            proof {
                assert(rest.take(k as int) =~= wanted@);
                assert(rest.skip(k as int) =~= chars@.skip(i + k));
                let tail = replaced(chars@.skip(i + k), pattern@, with@);
                assert(before + (with@ + tail) =~= (before + with@) + tail);
            }
            r.append(with);
            i = i + k;
        } else {
            proof {
                assert(!has_prefix(rest, wanted@)) by {
                    if has_prefix(rest, wanted@) {
                        assert(rest.take(wanted@.len() as int)[k as int] == rest[k as int]);
                        assert(rest[k as int] == chars@[i + k]);
                    }
                }
                assert(rest.drop_first() =~= chars@.skip(i + 1));
                assert(rest[0] == chars@[i as int]);
                let tail = replaced(chars@.skip(i + 1), pattern@, with@);
                assert(before + (seq![rest[0]] + tail) =~= before.push(rest[0]) + tail);
            }
            r.push(chars[i]);
            i = i + 1;
        }
    }
    assert(chars@.skip(i as int) =~= Seq::empty());
    assert(r@ + Seq::<char>::empty() =~= r@);
    r
}

// Order -----------------------------------------------------------------

/// The order of texts by their characters, first difference first; a text
/// comes before its extensions.
pub open spec fn precedes(a: Seq<char>, b: Seq<char>) -> bool
    decreases a.len(),
{
    if b.len() == 0 {
        false
    } else if a.len() == 0 {
        true
    } else {
        a[0] < b[0] || (a[0] == b[0] && precedes(a.drop_first(), b.drop_first()))
    }
}

/// `precedes` is a strict total order.
pub proof fn lemma_precedes_total(a: Seq<char>, b: Seq<char>)
    ensures
        !precedes(a, a),
        precedes(a, b) ==> !precedes(b, a) && a != b,
        a != b ==> precedes(a, b) || precedes(b, a),
    decreases a.len(),
{
    if a.len() > 0 {
        if b.len() > 0 {
            lemma_precedes_total(a.drop_first(), b.drop_first());
            if a[0] == b[0] && a.drop_first() == b.drop_first() {
                assert(a =~= seq![a[0]] + a.drop_first());
                assert(b =~= seq![b[0]] + b.drop_first());
            }
        } else {
            lemma_precedes_total(a.drop_first(), a.drop_first());
        }
    } else if b.len() == 0 {
        assert(a =~= b);
    }
}

/// `precedes` is transitive.
pub proof fn lemma_precedes_transitive(a: Seq<char>, b: Seq<char>, c: Seq<char>)
    requires
        precedes(a, b),
        precedes(b, c),
    ensures
        precedes(a, c),
    decreases a.len(),
{
    if a.len() > 0 && b.len() > 0 && c.len() > 0 && a[0] == b[0] && b[0] == c[0] {
        lemma_precedes_transitive(a.drop_first(), b.drop_first(), c.drop_first());
    }
}

proof fn lemma_precedes_skip(a: Seq<char>, b: Seq<char>, n: int)
    requires
        0 <= n <= a.len(),
        n <= b.len(),
        forall|i: int| 0 <= i < n ==> a[i] == b[i],
    ensures
        precedes(a, b) == precedes(a.skip(n), b.skip(n)),
    decreases n,
{
    if n == 0 {
        assert(a.skip(0) =~= a);
        assert(b.skip(0) =~= b);
    } else {
        assert(a[0] == b[0]);
        lemma_precedes_skip(a.drop_first(), b.drop_first(), n - 1);
        assert(a.drop_first().skip(n - 1) =~= a.skip(n));
        assert(b.drop_first().skip(n - 1) =~= b.skip(n));
    }
}

/// Whether `a` comes before `b` in the order of texts.
pub fn comes_before(a: &str, b: &str) -> (r: bool)
    ensures
        r == precedes(a@, b@),
{
    let x = chars_of(a);
    let y = chars_of(b);
    let mut i: usize = 0;
    while i < x.len() && i < y.len() && x[i] == y[i]
        invariant
            i <= x@.len(),
            i <= y@.len(),
            forall|j: int| 0 <= j < i ==> x@[j] == y@[j],
        decreases x@.len() - i,
    {
        i = i + 1;
    }
    proof {
        lemma_precedes_skip(x@, y@, i as int);
    }
    if i == y.len() {
        false
    } else if i == x.len() {
        true
    } else {
        x[i] < y[i]
    }
}

// What the operations are for ------------------------------------------------

/// Among the ASCII characters white space is the space and the five controls
/// from tab to carriage return.
pub proof fn law_ascii_white_space(c: char)
    requires
        c < '\u{80}',
    ensures
        white_space(c) <==> c == ' ' || c == '\t' || c == '\n' || c == '\r' || c == '\u{b}' || c
            == '\u{c}',
{
}

/// Whether a text is white space throughout.
pub open spec fn all_white(s: Seq<char>) -> bool {
    forall|i: int| 0 <= i < s.len() ==> white_space(#[trigger] s[i])
}

/// Trimming the start takes white space away and nothing else: what is left
/// begins with a visible character, if anything is left.
pub proof fn law_trimming_the_start(s: Seq<char>)
    ensures
        trim_start(s).len() <= s.len(),
        s == s.take(s.len() - trim_start(s).len()) + trim_start(s),
        all_white(s.take(s.len() - trim_start(s).len())),
        trim_start(s).len() > 0 ==> !white_space(trim_start(s)[0]),
    decreases s.len(),
{
    if s.len() > 0 && white_space(s[0]) {
        let rest = s.drop_first();
        law_trimming_the_start(rest);
        let k = s.len() - trim_start(s).len();
        assert forall|i: int| 0 <= i < k implies white_space(#[trigger] s.take(k)[i]) by {
            if i > 0 {
                assert(rest.take(k - 1)[i - 1] == s[i]);
            }
        }
        assert(s =~= s.take(k) + trim_start(s)) by {
            assert forall|i: int| k <= i < s.len() implies s[i] == trim_start(s)[i - k] by {
                assert(rest[i - 1] == (rest.take(k - 1) + trim_start(rest))[i - 1]);
            }
        }
    } else {
        assert(s =~= s.take(0) + s);
    }
}

/// Trimming the end takes white space away and nothing else.
pub proof fn law_trimming_the_end(s: Seq<char>)
    ensures
        trim_end(s).len() <= s.len(),
        s == trim_end(s) + s.skip(trim_end(s).len() as int),
        all_white(s.skip(trim_end(s).len() as int)),
        trim_end(s).len() > 0 ==> !white_space(trim_end(s).last()),
    decreases s.len(),
{
    if s.len() > 0 && white_space(s.last()) {
        let rest = s.drop_last();
        law_trimming_the_end(rest);
        let k = trim_end(s).len() as int;
        assert forall|i: int| 0 <= i < s.skip(k).len() implies white_space(
            #[trigger] s.skip(k)[i],
        ) by {
            if k + i < rest.len() {
                assert(rest.skip(k)[i] == s[k + i]);
            }
        }
        assert(s =~= trim_end(s) + s.skip(k)) by {
            assert forall|i: int| 0 <= i < k implies s[i] == trim_end(s)[i] by {
                assert(rest[i] == (trim_end(rest) + rest.skip(k))[i]);
            }
        }
    } else {
        assert(s =~= s + s.skip(s.len() as int));
    }
}

/// Trimming gives back the visible core of a text: whatever white space stands
/// around a text that begins and ends visibly is taken away, and nothing else.
pub proof fn law_trimming_gives_the_core(before: Seq<char>, core: Seq<char>, after: Seq<char>)
    requires
        all_white(before),
        all_white(after),
        core.len() > 0,
        !white_space(core[0]),
        !white_space(core.last()),
    ensures
        trim_start(before + core) == core,
        trim(before + core + after) == core,
        trim(core) == core,
{
    lemma_trim_start_white(before, core + after);
    lemma_trim_start_white(before, core);
    lemma_trim_end_white(core, after);
    assert((core + after)[0] == core[0]);
    assert(before + core + after =~= before + (core + after));
}

proof fn lemma_trim_start_white(before: Seq<char>, rest: Seq<char>)
    requires
        all_white(before),
    ensures
        trim_start(before + rest) == trim_start(rest),
    decreases before.len(),
{
    if before.len() > 0 {
        let fewer = before.drop_first();
        assert(white_space(before[0]));
        assert forall|i: int| 0 <= i < fewer.len() implies white_space(#[trigger] fewer[i]) by {
            assert(fewer[i] == before[i + 1]);
        }
        lemma_trim_start_white(fewer, rest);
        assert((before + rest)[0] == before[0]);
        assert((before + rest).drop_first() =~= fewer + rest);
    } else {
        assert(before + rest =~= rest);
    }
}

proof fn lemma_trim_end_white(rest: Seq<char>, after: Seq<char>)
    requires
        all_white(after),
    ensures
        trim_end(rest + after) == trim_end(rest),
    decreases after.len(),
{
    if after.len() > 0 {
        let fewer = after.drop_last();
        assert(white_space(after[after.len() - 1]));
        assert forall|i: int| 0 <= i < fewer.len() implies white_space(#[trigger] fewer[i]) by {
            assert(fewer[i] == after[i]);
        }
        lemma_trim_end_white(rest, fewer);
        assert((rest + after).last() == after.last());
        assert((rest + after).drop_last() =~= rest + fewer);
    } else {
        assert(rest + after =~= rest);
    }
}

/// A prefix is taken off exactly where the text begins with it, and what is
/// left is the rest of the text.
pub proof fn law_prefixes_come_off(prefix: Seq<char>, rest: Seq<char>, s: Seq<char>)
    ensures
        after_prefix(prefix + rest, prefix) == Some(rest),
        after_prefix(s, prefix) matches Some(r) ==> s == prefix + r,
{
    let t = prefix + rest;
    assert(t.take(prefix.len() as int) =~= prefix);
    assert(t.skip(prefix.len() as int) =~= rest);
    if has_prefix(s, prefix) {
        assert(s =~= s.take(prefix.len() as int) + s.skip(prefix.len() as int));
    }
}

/// Splitting at a character cuts at its first place: the parts and the
/// character make up the text, and only a text without the character is not
/// split.
pub proof fn law_splitting_cuts_at_the_first(
    s: Seq<char>,
    c: char,
    before: Seq<char>,
    after: Seq<char>,
)
    ensures
        !before.contains(c) ==> split_at_char(before.push(c) + after, c) == Some((before, after)),
        split_at_char(s, c) is None <==> !s.contains(c),
        split_at_char(s, c) matches Some((a, b)) ==> s == a.push(c) + b && !a.contains(c),
{
    lemma_first_index(s, c);
    let k = first_index(s, c);
    if k < s.len() {
        assert(s.contains(s[k]));
        assert(s =~= s.take(k).push(c) + s.skip(k + 1));
        if s.take(k).contains(c) {
            let i = choose|i: int| 0 <= i < k && s.take(k)[i] == c;
            assert(s[i] == c);
        }
    } else if s.contains(c) {
        let i = choose|i: int| 0 <= i < s.len() && s[i] == c;
        assert(s[i] != c);
    }
    if !before.contains(c) {
        let t = before.push(c) + after;
        assert forall|i: int| 0 <= i < before.len() implies t[i] != c by {
            assert(before.contains(before[i]));
        }
        lemma_first_index_is(t, c, before.len() as int);
        assert(t.take(before.len() as int) =~= before);
        assert(t.skip(before.len() as int + 1) =~= after);
    }
}

/// Joining puts the separator between neighbours and nowhere else: no parts
/// give nothing, one part is itself, and two lists are joined by joining each
/// and one separator between them.
pub proof fn law_joining_keeps_the_parts(
    one: Seq<char>,
    first: Seq<Seq<char>>,
    second: Seq<Seq<char>>,
    sep: Seq<char>,
)
    ensures
        joined(Seq::empty(), sep) == Seq::<char>::empty(),
        joined(seq![one], sep) == one,
        first.len() > 0 && second.len() > 0 ==> joined(first + second, sep) == joined(first, sep)
            + sep + joined(second, sep),
    decreases second.len(),
{
    if first.len() > 0 && second.len() > 0 {
        let all = first + second;
        assert(all.last() == second.last());
        assert(all.drop_last() =~= first + second.drop_last());
        if second.len() == 1 {
            assert(first + second.drop_last() =~= first);
        } else {
            law_joining_keeps_the_parts(one, first, second.drop_last(), sep);
            assert(joined(all, sep) =~= joined(first, sep) + sep + joined(second, sep));
        }
    }
}

/// Concatenating loses nothing: one part is itself, and two lists give one
/// text behind the other.
pub proof fn law_concatenating_keeps_the_parts(
    one: Seq<char>,
    first: Seq<Seq<char>>,
    second: Seq<Seq<char>>,
)
    ensures
        concatenated(Seq::empty()) == Seq::<char>::empty(),
        concatenated(seq![one]) == one,
        concatenated(first + second) == concatenated(first) + concatenated(second),
    decreases second.len(),
{
    reveal_with_fuel(concatenated, 2);
    assert(seq![one].drop_last() =~= Seq::empty());
    assert(concatenated(seq![one]) =~= one);
    if second.len() == 0 {
        assert(first + second =~= first);
        assert(concatenated(first) + concatenated(second) =~= concatenated(first));
    } else {
        law_concatenating_keeps_the_parts(one, first, second.drop_last());
        assert((first + second).drop_last() =~= first + second.drop_last());
        assert((first + second).last() == second.last());
        assert(concatenated(first + second) =~= concatenated(first) + concatenated(second));
    }
}

/// Replacing puts the replacement where the pattern first stands, goes on
/// behind it, and leaves a text alone in which the pattern cannot begin.
pub proof fn law_replacing_changes_the_pattern_only(
    before: Seq<char>,
    pattern: Seq<char>,
    with: Seq<char>,
    after: Seq<char>,
)
    requires
        pattern.len() > 0,
        !before.contains(pattern[0]),
    ensures
        replaced(before, pattern, with) == before,
        replaced(before + pattern + after, pattern, with) == before + with + replaced(
            after,
            pattern,
            with,
        ),
    decreases before.len(),
{
    let all = before + pattern + after;
    if before.len() == 0 {
        assert(all.take(pattern.len() as int) =~= pattern);
        assert(all.skip(pattern.len() as int) =~= after);
        assert(before + with =~= with);
        assert(replaced(before, pattern, with) =~= before);
    } else {
        let fewer = before.drop_first();
        if fewer.contains(pattern[0]) {
            let i = choose|i: int| 0 <= i < fewer.len() && fewer[i] == pattern[0];
            assert(before[i + 1] == pattern[0]);
        }
        law_replacing_changes_the_pattern_only(fewer, pattern, with, after);
        assert(before.contains(before[0]));
        if has_prefix(all, pattern) {
            assert(all.take(pattern.len() as int)[0] == all[0]);
        }
        if has_prefix(before, pattern) {
            assert(before.take(pattern.len() as int)[0] == before[0]);
        }
        assert(all.drop_first() =~= fewer + pattern + after);
        assert(seq![before[0]] + fewer =~= before);
        assert(replaced(all, pattern, with) =~= before + with + replaced(after, pattern, with));
    }
}

/// The order of texts goes by the first characters that differ, and a text
/// comes before its own extensions.
pub proof fn law_order_goes_by_the_first_difference(
    common: Seq<char>,
    c: char,
    d: char,
    x: Seq<char>,
    y: Seq<char>,
)
    requires
        c < d,
    ensures
        precedes(common + (seq![c] + x), common + (seq![d] + y)),
        !precedes(common + (seq![d] + y), common + (seq![c] + x)),
        precedes(common, common + (seq![c] + x)),
{
    let a = common + (seq![c] + x);
    let b = common + (seq![d] + y);
    let n = common.len() as int;
    lemma_precedes_skip(a, b, n);
    lemma_precedes_skip(common, a, n);
    assert(a.skip(n) =~= seq![c] + x);
    assert(b.skip(n) =~= seq![d] + y);
    assert(common.skip(n) =~= Seq::empty());
    lemma_precedes_total(a, b);
}

/// Views of strings are their characters: of each string of a list in its
/// place, of an optional string where there is one, of both sides of an
/// outcome.
pub proof fn law_views_are_the_characters(list: Seq<String>, i: int, s: String, slice: &str)
    ensures
        texts(list).len() == list.len(),
        0 <= i < list.len() ==> texts(list)[i] == list[i]@,
        opt_text(Some(s)) == Some(s@),
        opt_text(None) is None,
        opt_str(Some(slice)) == Some(slice@),
        opt_str(None) is None,
        outcome(Ok(s)) == Ok::<Seq<char>, Seq<char>>(s@),
        outcome(Err(s)) == Err::<Seq<char>, Seq<char>>(s@),
{
}

/// Beyond ASCII white space is what Unicode calls so: the next-line control, the
/// no-break, Ogham and ideographic spaces, the row of spaces of fixed width, the
/// two narrow ones, and the separators of lines and paragraphs.
pub proof fn law_wide_white_space(c: char)
    requires
        c >= '\u{80}',
    ensures
        ({
            let n = c as u32;
            white_space(c) <==> n == 0x85 || n == 0xa0 || n == 0x1680 || 0x2000 <= n <= 0x200a || n
                == 0x2028 || n == 0x2029 || n == 0x202f || n == 0x205f || n == 0x3000
        }),
{
}

} // verus!
