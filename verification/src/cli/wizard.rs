//! The configuration wizard: its defaults, its masked input and its summary.

use vstd::prelude::*;
use vstd::string::*;
use vstd::utf8::*;

use crate::number;
use crate::onebot::config;
use crate::onebot::config::{OnebotConfig, OnebotView};
use crate::text;

verus! {

/// The configuration of the program.
#[derive(Debug)]
pub struct Config {
    pub api_url: String,
    pub api_key: String,
    pub model: String,
    pub web_search: bool,
    pub onebot: Option<OnebotConfig>,
}

/// The view of a [`Config`].
pub struct ConfigView {
    pub api_url: Seq<char>,
    pub api_key: Seq<char>,
    pub model: Seq<char>,
    pub web_search: bool,
    pub onebot: Option<OnebotView>,
}

impl View for Config {
    type V = ConfigView;

    open spec fn view(&self) -> ConfigView {
        ConfigView {
            api_url: self.api_url@,
            api_key: self.api_key@,
            model: self.model@,
            web_search: self.web_search,
            onebot: config::opt_view(self.onebot),
        }
    }
}

/// The view of an optional configuration.
pub open spec fn opt_view(cfg: Option<Config>) -> Option<ConfigView> {
    match cfg {
        Some(c) => Some(c@),
        None => None,
    }
}

/// A model provider that the wizard offers.
#[derive(Debug)]
pub struct Provider {
    pub name: String,
    pub url: Option<String>,
    pub default_model: Option<String>,
}

// Defaults ------------------------------------------------------------------------

/// The first provider with that address, or the number of providers.
pub open spec fn provider_at(providers: Seq<Provider>, url: Seq<char>) -> int
    decreases providers.len(),
{
    if providers.len() == 0 || text::opt_text(providers[0].url) == Some(url) {
        0
    } else {
        1 + provider_at(providers.drop_first(), url)
    }
}

/// The menu entry that is chosen at first: the provider of the existing
/// configuration, else the last entry, which is for any other provider.
pub fn default_provider(providers: &Vec<Provider>, existing_url: Option<&str>) -> (r: usize)
    ensures
        r == (match text::opt_str(existing_url) {
            Some(url) => provider_at(providers@, url),
            None => providers@.len() as int,
        }),
        r <= providers@.len(),
{
    let url = match existing_url {
        Some(url) => url,
        None => {
            return providers.len();
        },
    };
    let mut i: usize = 0;
    assert(providers@.skip(0) =~= providers@);
    while i < providers.len()
        invariant
            i <= providers@.len(),
            text::opt_str(existing_url) == Some(url@),
            provider_at(providers@, url@) == i + provider_at(providers@.skip(i as int), url@),
        decreases providers@.len() - i,
    {
        assert(providers@.skip(i as int)[0] == providers@[i as int]);
        match &providers[i].url {
            Some(u) => if text::str_eq(u.as_str(), url) {
                return i;
            },
            None => {},
        }
        assert(providers@.skip(i as int).drop_first() =~= providers@.skip(i + 1));
        i = i + 1;
    }
    i
}

/// The address that is offered for any other provider.
pub fn default_url(existing: Option<&str>) -> (r: String)
    ensures
        r@ == (match text::opt_str(existing) {
            Some(url) => url,
            None => "https://api.openai.com/v1"@,
        }),
{
    match existing {
        Some(url) => url.to_owned(),
        None => "https://api.openai.com/v1".to_owned(),
    }
}

/// The model that is offered: that of the existing configuration, else that of
/// the chosen provider, else a common one.
pub fn default_model(existing: Option<&str>, provider: Option<&str>) -> (r: String)
    ensures
        r@ == (match text::opt_str(existing) {
            Some(model) => model,
            None => match text::opt_str(provider) {
                Some(model) => model,
                None => "gpt-4o"@,
            },
        }),
{
    match existing {
        Some(model) => model.to_owned(),
        None => match provider {
            Some(model) => model.to_owned(),
            None => "gpt-4o".to_owned(),
        },
    }
}

/// The key that may be kept for a provider: that of an existing configuration
/// for the same address.
pub fn kept_key(existing: &Option<Config>, url: &str) -> (r: Option<String>)
    ensures
        r == (match *existing {
            Some(cfg) => if cfg.api_url@ == url@ {
                Some(cfg.api_key)
            } else {
                None
            },
            None => None,
        }),
{
    match existing {
        Some(cfg) => if text::str_eq(cfg.api_url.as_str(), url) {
            Some(cfg.api_key.clone())
        } else {
            None
        },
        None => None,
    }
}

/// The address of the OneBot implementation that is offered.
pub fn default_ws_url(existing: &Option<OnebotConfig>) -> (r: String)
    ensures
        r@ == (match *existing {
            Some(ob) => ob.ws_url@,
            None => "ws://127.0.0.1:3001"@,
        }),
{
    match existing {
        Some(ob) => ob.ws_url.clone(),
        None => "ws://127.0.0.1:3001".to_owned(),
    }
}

/// The text of a field of an existing configuration, empty where there is none.
fn kept_text(o: Option<&String>) -> (r: String)
    ensures
        r@ == (match o {
            Some(s) => s@,
            None => Seq::empty(),
        }),
{
    match o {
        Some(s) => s.clone(),
        None => {
            let r = String::new();
            assert(r@ =~= Seq::empty());
            r
        },
    }
}

/// The OneBot configuration that answers make up. An empty token keeps the
/// existing one; the prefix is not asked for and stays.
pub open spec fn onebot_answered(
    existing: Option<OnebotView>,
    ws_url: Seq<char>,
    token: Seq<char>,
    persona: Seq<char>,
    friends: Seq<char>,
    groups: Seq<char>,
) -> OnebotView {
    OnebotView {
        enabled: true,
        mode: "ws"@,
        ws_url,
        access_token: if token.len() > 0 {
            token
        } else {
            match existing {
                Some(ob) => ob.access_token,
                None => Seq::empty(),
            }
        },
        persona,
        prefix: match existing {
            Some(ob) => ob.prefix,
            None => Seq::empty(),
        },
        friend_ids: ids_in(friends),
        group_ids: ids_in(groups),
    }
}

/// The OneBot configuration that the answers make up.
pub fn onebot_from(
    existing: &Option<OnebotConfig>,
    ws_url: String,
    token: String,
    persona: String,
    friends: &str,
    groups: &str,
) -> (r: OnebotConfig)
    ensures
        r@ == onebot_answered(
            config::opt_view(*existing),
            ws_url@,
            token@,
            persona@,
            friends@,
            groups@,
        ),
{
    let (kept_token, prefix) = match existing {
        Some(ob) => (kept_text(Some(&ob.access_token)), kept_text(Some(&ob.prefix))),
        None => (kept_text(None), kept_text(None)),
    };
    OnebotConfig {
        enabled: true,
        mode: "ws".to_owned(),
        ws_url,
        access_token: if text::is_empty(token.as_str()) {
            kept_token
        } else {
            token
        },
        persona,
        prefix,
        friend_ids: parse_id_list(friends),
        group_ids: parse_id_list(groups),
    }
}

// Lists of ids ----------------------------------------------------------------------

/// Whether a character stands between ids.
pub open spec fn separates(c: char) -> bool {
    c == ',' || text::white_space(c)
}

/// The place of the first separator, or the length.
pub open spec fn first_separator(s: Seq<char>) -> int
    decreases s.len(),
{
    if s.len() == 0 || separates(s[0]) {
        0
    } else {
        1 + first_separator(s.drop_first())
    }
}

/// `first_separator` is the first place that holds one.
pub proof fn lemma_first_separator(s: Seq<char>)
    ensures
        0 <= first_separator(s) <= s.len(),
        first_separator(s) < s.len() ==> separates(s[first_separator(s)]),
        forall|i: int| 0 <= i < first_separator(s) ==> !separates(s[i]),
    decreases s.len(),
{
    if s.len() > 0 && !separates(s[0]) {
        let rest = s.drop_first();
        lemma_first_separator(rest);
        assert forall|i: int| 0 <= i < first_separator(s) implies !separates(s[i]) by {
            if i > 0 {
                assert(rest[i - 1] == s[i]);
            }
        }
    }
}

/// The ids in a text: what stands between separators, as far as it is an
/// integer.
pub open spec fn ids_in(s: Seq<char>) -> Seq<i64>
    decreases s.len(),
{
    let k = first_separator(s);
    proof {
        lemma_first_separator(s);
    }
    let first = match number::i64_of(text::trim(s.take(k))) {
        Some(n) => seq![n],
        None => Seq::empty(),
    };
    if k < s.len() {
        first + ids_in(s.skip(k + 1))
    } else {
        first
    }
}

/// The ids in a text, separated by commas or white space.
pub fn parse_id_list(input: &str) -> (r: Vec<i64>)
    ensures
        r@ == ids_in(input@),
{
    let chars = text::chars_of(input);
    let mut r: Vec<i64> = Vec::new();
    let mut start: usize = 0;
    let ghost all = ids_in(input@);
    assert(chars@.skip(0) =~= chars@);
    assert(r@ + all =~= all);
    loop
        invariant_except_break
            start <= chars@.len(),
            all == r@ + ids_in(chars@.skip(start as int)),
        ensures
            all == r@,
        decreases chars@.len() - start,
    {
        let ghost rest = chars@.skip(start as int);
        let ghost before = r@;
        let mut end: usize = start;
        while end < chars.len() && chars[end] != ',' && !text::is_whitespace(chars[end])
            invariant
                start <= end <= chars@.len(),
                rest == chars@.skip(start as int),
                forall|i: int| 0 <= i < end - start ==> !separates(rest[i]),
            decreases chars@.len() - end,
        {
            assert(rest[end - start] == chars@[end as int]);
            end = end + 1;
        }
        let piece = text::string_of(&chars, start, end);
        let trimmed = text::trimmed(piece.as_str());
        proof {
            lemma_first_separator(rest);
            if end < chars@.len() {
                assert(rest[end - start] == chars@[end as int]);
            }
            assert(first_separator(rest) == end - start);
            assert(piece@ =~= rest.take(end - start));
        }
        let ghost first: Seq<i64> = match number::i64_of(trimmed@) {
            Some(n) => seq![n],
            None => Seq::empty(),
        };
        match number::parse_i64(trimmed.as_str()) {
            Some(n) => {
                r.push(n);
            },
            None => {},
        }
        assert(r@ =~= before + first);
        if end == chars.len() {
            assert(ids_in(rest) =~= first);
            break;
        }
        proof {
            assert(rest.skip(end - start + 1) =~= chars@.skip(end + 1));
            let tail = ids_in(chars@.skip(end + 1));
            assert(ids_in(rest) == first + tail);
            assert(before + (first + tail) =~= (before + first) + tail);
        }
        start = end + 1;
    }
    r
}

/// The decimal texts of ids.
pub open spec fn id_texts(ids: Seq<i64>) -> Seq<Seq<char>> {
    ids.map_values(|n: i64| number::decimal(n as int))
}

/// Ids as text, separated by commas.
pub fn id_list_text(ids: &Vec<i64>) -> (r: String)
    ensures
        r@ == text::joined(id_texts(ids@), ","@),
{
    let mut parts: Vec<String> = Vec::new();
    let mut i: usize = 0;
    while i < ids.len()
        invariant
            i <= ids@.len(),
            parts@.len() == i,
            forall|j: int|
                0 <= j < i ==> (#[trigger] parts@[j])@ == number::decimal(ids@[j] as int),
        decreases ids@.len() - i,
    {
        parts.push(number::i64_text(ids[i]));
        i = i + 1;
    }
    assert(text::texts(parts@) =~= id_texts(ids@));
    text::join(&parts, ",")
}

proof fn lemma_joined_front(first: Seq<char>, rest: Seq<Seq<char>>, sep: Seq<char>)
    requires
        rest.len() > 0,
    ensures
        text::joined(seq![first] + rest, sep) == first + sep + text::joined(rest, sep),
    decreases rest.len(),
{
    let all = seq![first] + rest;
    if rest.len() == 1 {
        assert(all.drop_last() =~= seq![first]);
        assert(text::joined(seq![first], sep) == first);
        assert(all.last() == rest[0]);
    } else {
        lemma_joined_front(first, rest.drop_last(), sep);
        assert(all.drop_last() =~= seq![first] + rest.drop_last());
        assert(all.last() == rest.last());
        assert(text::joined(all, sep) =~= first + sep + text::joined(rest, sep));
    }
}

proof fn lemma_id_piece(n: i64)
    ensures
        ({
            let s = number::decimal(n as int);
            &&& text::trim(s) == s
            &&& number::i64_of(s) == Some(n)
            &&& forall|i: int| 0 <= i < s.len() ==> !separates(s[i])
        }),
{
    let s = number::decimal(n as int);
    number::lemma_decimal_chars(n as int);
    number::law_integer_text_round_trips(n as int);
    assert(!separates(s[0]));
    assert(!separates(s.last()));
}

proof fn lemma_leading_id(n: i64, rest: Seq<char>)
    ensures
        ids_in(number::decimal(n as int)) == seq![n],
        ids_in(number::decimal(n as int).push(',') + rest) == seq![n] + ids_in(rest),
{
    lemma_id_piece(n);
    let s = number::decimal(n as int);
    lemma_first_separator(s);
    assert(first_separator(s) == s.len());
    assert(s.take(s.len() as int) =~= s);
    let t = s.push(',') + rest;
    lemma_first_separator(t);
    assert forall|i: int| 0 <= i < s.len() implies !separates(t[i]) by {
        assert(t[i] == s[i]);
    }
    assert(t[s.len() as int] == ',');
    assert(first_separator(t) == s.len());
    assert(t.take(s.len() as int) =~= s);
    assert(t.skip(s.len() as int + 1) =~= rest);
}

/// A list of ids that was written as text is read back unchanged.
pub proof fn law_id_lists_round_trip(ids: Seq<i64>)
    ensures
        ids_in(text::joined(id_texts(ids), ","@)) == ids,
    decreases ids.len(),
{
    reveal_strlit(",");
    if ids.len() == 0 {
        assert(id_texts(ids) =~= Seq::empty());
        let none = Seq::<char>::empty();
        assert(none.take(0) =~= none);
        assert(ids_in(none) =~= ids);
    } else {
        let rest = ids.drop_first();
        let first = number::decimal(ids[0] as int);
        assert(id_texts(ids) =~= seq![first] + id_texts(rest));
        if rest.len() == 0 {
            assert(id_texts(ids) =~= seq![first]);
            lemma_leading_id(ids[0], Seq::empty());
            assert(seq![ids[0]] =~= ids);
        } else {
            law_id_lists_round_trip(rest);
            lemma_joined_front(first, id_texts(rest), ","@);
            let tail = text::joined(id_texts(rest), ","@);
            lemma_leading_id(ids[0], tail);
            assert(first + ","@ + tail =~= first.push(',') + tail);
            assert(seq![ids[0]] + rest =~= ids);
        }
    }
}

// Keys ------------------------------------------------------------------------------

/// A key that may be shown: all of a short key is hidden, and of a longer one
/// all but the first and last four bytes.
pub open spec fn masked(key: Seq<char>) -> Seq<char> {
    let bytes = encode_utf8(key);
    let n = bytes.len() as int;
    if n <= 8 {
        Seq::new(n as nat, |i: int| '*')
    } else {
        decode_utf8(bytes.subrange(0, 4)) + "****"@ + decode_utf8(bytes.subrange(n - 4, n))
    }
}

/// Whether a key can be masked: of one of more than eight bytes the first and
/// the last four bytes end and begin between characters.
pub open spec fn can_mask(key: Seq<char>) -> bool {
    let bytes = encode_utf8(key);
    bytes.len() > 8 ==> is_char_boundary(bytes, 4) && is_char_boundary(bytes, bytes.len() - 4)
}

/// Whether a key can be masked.
pub fn is_maskable(key: &str) -> (r: bool)
    ensures
        r == can_mask(key@),
{
    let n = key.as_bytes().len();
    n <= 8 || (key.is_char_boundary(4) && key.is_char_boundary(n - 4))
}

/// A key that may be shown.
pub fn mask_key(key: &str) -> (r: String)
    requires
        can_mask(key@),
    ensures
        r@ == masked(key@),
{
    let n = key.as_bytes().len();
    if n <= 8 {
        text::repeat_char('*', n)
    } else {
        let head = key.split_at(4).0;
        let tail = key.split_at(n - 4).1;
        proof {
            encode_utf8_decode_utf8(head@);
            encode_utf8_decode_utf8(tail@);
        }
        head.to_owned().concat("****").concat(tail)
    }
}

/// The question for a key: what is shown and whether an empty answer is
/// admitted. `kept` is the key that an empty answer keeps; it is shown masked.
pub fn key_question(prompt: &str, kept: Option<&str>) -> (r: (String, bool))
    requires
        kept matches Some(key) ==> can_mask(key@),
    ensures
        match text::opt_str(kept) {
            Some(key) => r.0@ == prompt@ + " [current: "@ + masked(key) + "]"@ && r.1,
            None => r.0@ == prompt@ && !r.1,
        },
{
    match kept {
        Some(key) => (
            prompt.to_owned().concat(" [current: ").concat(mask_key(key).as_str()).concat("]"),
            true,
        ),
        None => (prompt.to_owned(), false),
    }
}

/// The key that an existing one leaves to keep: none where it is empty.
pub fn keepable(existing: Option<String>) -> (r: Option<String>)
    ensures
        r == (match existing {
            Some(key) if key@.len() > 0 => Some(key),
            _ => None,
        }),
{
    match existing {
        Some(key) => if text::is_empty(key.as_str()) {
            None
        } else {
            Some(key)
        },
        None => None,
    }
}

/// The key after the question: an empty answer keeps the kept one.
pub fn prompt_for_key(kept: Option<String>, input: String) -> (r: String)
    ensures
        r == (match kept {
            Some(key) => if input@.len() == 0 {
                key
            } else {
                input
            },
            None => input,
        }),
{
    match kept {
        Some(key) => if text::is_empty(input.as_str()) {
            key
        } else {
            input
        },
        None => input,
    }
}

/// The question for the OneBot token. `token` is the existing token, which an
/// empty answer keeps; nothing of it is shown.
pub fn token_question(token: &str) -> (r: String)
    ensures
        r@ == (if token@.len() > 0 {
            "OneBot access token [current: ****]"@
        } else {
            "OneBot access token (leave empty if none)"@
        }),
{
    if text::is_empty(token) {
        "OneBot access token (leave empty if none)".to_owned()
    } else {
        "OneBot access token [current: ****]".to_owned()
    }
}

// The dialogue -----------------------------------------------------------------------

/// The answers to the questions of the wizard.
#[derive(Debug)]
pub struct WizardAnswers {
    /// The chosen menu entry: a provider, or any other provider behind them.
    pub provider: usize,
    /// The address; it counts for any other provider only.
    pub api_url: String,
    /// The key; an empty one keeps the key of an existing configuration.
    pub api_key: String,
    pub model: String,
    pub web_search: bool,
    /// Whether OneBot is enabled; the answers on it count only then.
    pub onebot: bool,
    pub ws_url: String,
    /// The token; an empty one keeps the token of an existing configuration.
    pub access_token: String,
    pub persona: String,
    pub friends: String,
    pub groups: String,
    /// Whether the configuration is to be saved.
    pub save: bool,
}

/// The view of [`WizardAnswers`].
pub struct AnswersView {
    pub provider: int,
    pub api_url: Seq<char>,
    pub api_key: Seq<char>,
    pub model: Seq<char>,
    pub web_search: bool,
    pub onebot: bool,
    pub ws_url: Seq<char>,
    pub access_token: Seq<char>,
    pub persona: Seq<char>,
    pub friends: Seq<char>,
    pub groups: Seq<char>,
    pub save: bool,
}

impl View for WizardAnswers {
    type V = AnswersView;

    open spec fn view(&self) -> AnswersView {
        AnswersView {
            provider: self.provider as int,
            api_url: self.api_url@,
            api_key: self.api_key@,
            model: self.model@,
            web_search: self.web_search,
            onebot: self.onebot,
            ws_url: self.ws_url@,
            access_token: self.access_token@,
            persona: self.persona@,
            friends: self.friends@,
            groups: self.groups@,
            save: self.save,
        }
    }
}

/// The address of a chosen provider, `None` where any other is chosen.
pub open spec fn chosen_url(providers: Seq<Provider>, chosen: int) -> Option<Seq<char>> {
    if 0 <= chosen < providers.len() {
        match providers[chosen].url {
            Some(url) => Some(url@),
            None => Some(Seq::empty()),
        }
    } else {
        None
    }
}

/// The address of a chosen provider, `None` where any other is chosen and the
/// address is to be asked for.
pub fn provider_url(providers: &Vec<Provider>, chosen: usize) -> (r: Option<String>)
    ensures
        text::opt_text(r) == chosen_url(providers@, chosen as int),
{
    if chosen < providers.len() {
        let url = match &providers[chosen].url {
            Some(url) => kept_text(Some(url)),
            None => kept_text(None),
        };
        Some(url)
    } else {
        None
    }
}

/// What the question for the key is called.
pub fn key_prompt(providers: &Vec<Provider>, chosen: usize) -> (r: String)
    ensures
        r@ == (if chosen < providers@.len() {
            providers@[chosen as int].name@ + " API Key"@
        } else {
            "API Key"@
        }),
{
    if chosen < providers.len() {
        providers[chosen].name.clone().concat(" API Key")
    } else {
        "API Key".to_owned()
    }
}

/// The key of an existing configuration that an empty answer keeps: it counts
/// for the provider of that configuration and for any other address.
pub open spec fn kept_key_of(
    existing: Option<ConfigView>,
    providers: Seq<Provider>,
    chosen: int,
) -> Option<Seq<char>> {
    match existing {
        Some(cfg) => match chosen_url(providers, chosen) {
            Some(url) if url != cfg.api_url => None,
            _ => if cfg.api_key.len() > 0 {
                Some(cfg.api_key)
            } else {
                None
            },
        },
        None => None,
    }
}

/// The key of an existing configuration that an empty answer keeps.
pub fn key_to_keep(existing: &Option<Config>, providers: &Vec<Provider>, chosen: usize) -> (r:
    Option<String>)
    ensures
        text::opt_text(r) == kept_key_of(opt_view(*existing), providers@, chosen as int),
{
    let key = match provider_url(providers, chosen) {
        Some(url) => kept_key(existing, url.as_str()),
        None => match existing {
            Some(cfg) => Some(cfg.api_key.clone()),
            None => None,
        },
    };
    keepable(key)
}

/// The model that is offered once a provider is chosen.
pub open spec fn model_offered(
    existing: Option<ConfigView>,
    providers: Seq<Provider>,
    chosen: int,
) -> Seq<char> {
    match existing {
        Some(cfg) => cfg.model,
        None => if 0 <= chosen < providers.len() && providers[chosen].default_model is Some {
            providers[chosen].default_model->Some_0@
        } else {
            "gpt-4o"@
        },
    }
}

/// The model that is offered once a provider is chosen.
pub fn offered_model(existing: &Option<Config>, providers: &Vec<Provider>, chosen: usize) -> (r:
    String)
    ensures
        r@ == model_offered(opt_view(*existing), providers@, chosen as int),
{
    let current = match existing {
        Some(cfg) => Some(cfg.model.as_str()),
        None => None,
    };
    let proposed = if chosen < providers.len() {
        match &providers[chosen].default_model {
            Some(model) => Some(model.as_str()),
            None => None,
        }
    } else {
        None
    };
    default_model(current, proposed)
}

/// The answers that are offered: those of an existing configuration. An empty
/// key and an empty token keep the existing ones.
pub open spec fn offered_answers(existing: Option<ConfigView>, providers: Seq<Provider>) -> AnswersView {
    let provider = match existing {
        Some(cfg) => provider_at(providers, cfg.api_url),
        None => providers.len() as int,
    };
    let onebot = match existing {
        Some(cfg) => cfg.onebot,
        None => None,
    };
    AnswersView {
        provider,
        api_url: match existing {
            Some(cfg) => cfg.api_url,
            None => "https://api.openai.com/v1"@,
        },
        api_key: Seq::empty(),
        model: model_offered(existing, providers, provider),
        web_search: match existing {
            Some(cfg) => cfg.web_search,
            None => true,
        },
        onebot: match onebot {
            Some(ob) => ob.enabled,
            None => false,
        },
        ws_url: match onebot {
            Some(ob) => ob.ws_url,
            None => "ws://127.0.0.1:3001"@,
        },
        access_token: Seq::empty(),
        persona: match onebot {
            Some(ob) => ob.persona,
            None => Seq::empty(),
        },
        friends: match onebot {
            Some(ob) => text::joined(id_texts(ob.friend_ids), ","@),
            None => Seq::empty(),
        },
        groups: match onebot {
            Some(ob) => text::joined(id_texts(ob.group_ids), ","@),
            None => Seq::empty(),
        },
        save: true,
    }
}

/// The answers that are offered. The model is the one for the provider that is
/// offered.
pub fn wizard_defaults(existing: &Option<Config>, providers: &Vec<Provider>) -> (r: WizardAnswers)
    ensures
        r@ == offered_answers(opt_view(*existing), providers@),
{
    let current = match existing {
        Some(cfg) => Some(cfg.api_url.as_str()),
        None => None,
    };
    let none: Option<OnebotConfig> = None;
    let onebot = match existing {
        Some(cfg) => &cfg.onebot,
        None => &none,
    };
    let provider = default_provider(providers, current);
    let model = offered_model(existing, providers, provider);
    let (enabled, persona, friends, groups) = match onebot {
        Some(ob) => (
            ob.enabled,
            kept_text(Some(&ob.persona)),
            id_list_text(&ob.friend_ids),
            id_list_text(&ob.group_ids),
        ),
        None => (false, kept_text(None), kept_text(None), kept_text(None)),
    };
    WizardAnswers {
        provider,
        api_url: default_url(current),
        api_key: kept_text(None),
        model,
        web_search: match existing {
            Some(cfg) => cfg.web_search,
            None => true,
        },
        onebot: enabled,
        ws_url: default_ws_url(onebot),
        access_token: kept_text(None),
        persona,
        friends,
        groups,
        save: true,
    }
}

/// The configuration that answers make up.
pub open spec fn answered_config(
    existing: Option<ConfigView>,
    providers: Seq<Provider>,
    a: AnswersView,
) -> ConfigView {
    ConfigView {
        api_url: match chosen_url(providers, a.provider) {
            Some(url) => url,
            None => a.api_url,
        },
        api_key: match kept_key_of(existing, providers, a.provider) {
            Some(key) if a.api_key.len() == 0 => key,
            _ => a.api_key,
        },
        model: a.model,
        web_search: a.web_search,
        onebot: if a.onebot {
            Some(
                onebot_answered(
                    match existing {
                        Some(cfg) => cfg.onebot,
                        None => None,
                    },
                    a.ws_url,
                    a.access_token,
                    a.persona,
                    a.friends,
                    a.groups,
                ),
            )
        } else {
            None
        },
    }
}

/// The configuration that answers make up, before it is saved.
pub fn wizard_config(existing: &Option<Config>, providers: &Vec<Provider>, a: &WizardAnswers) -> (r:
    Config)
    ensures
        r@ == answered_config(opt_view(*existing), providers@, a@),
{
    let api_url = match provider_url(providers, a.provider) {
        Some(url) => url,
        None => a.api_url.clone(),
    };
    let api_key = prompt_for_key(key_to_keep(existing, providers, a.provider), a.api_key.clone());
    let onebot = if a.onebot {
        let none: Option<OnebotConfig> = None;
        let current = match existing {
            Some(cfg) => &cfg.onebot,
            None => &none,
        };
        Some(
            onebot_from(
                current,
                a.ws_url.clone(),
                a.access_token.clone(),
                a.persona.clone(),
                a.friends.as_str(),
                a.groups.as_str(),
            ),
        )
    } else {
        None
    };
    Config { api_url, api_key, model: a.model.clone(), web_search: a.web_search, onebot }
}

/// What the wizard ends with: the configuration that the answers make up, or
/// an error where it is not to be saved.
pub fn wizard_result(existing: &Option<Config>, providers: &Vec<Provider>, a: WizardAnswers) -> (r:
    Result<Config, String>)
    ensures
        !a.save ==> (r matches Err(e) && e@ == "Configuration cancelled by user"@),
        a.save ==> (r matches Ok(c) && c@ == answered_config(
            opt_view(*existing),
            providers@,
            a@,
        )),
{
    if a.save {
        Ok(wizard_config(existing, providers, &a))
    } else {
        Err("Configuration cancelled by user".to_owned())
    }
}

proof fn lemma_provider_at(providers: Seq<Provider>, url: Seq<char>)
    ensures
        0 <= provider_at(providers, url) <= providers.len(),
        provider_at(providers, url) < providers.len() ==> text::opt_text(
            providers[provider_at(providers, url)].url,
        ) == Some(url),
    decreases providers.len(),
{
    if providers.len() > 0 && text::opt_text(providers[0].url) != Some(url) {
        lemma_provider_at(providers.drop_first(), url);
    }
}

/// Accepting every answer that is offered gives the existing configuration
/// back. A OneBot section that is switched off is left out of it, since OneBot
/// is then not enabled; one that is switched on must be of the one mode that
/// there is.
pub proof fn law_accepting_the_defaults_keeps_the_configuration(
    cfg: ConfigView,
    providers: Seq<Provider>,
)
    requires
        cfg.onebot matches Some(ob) ==> ob.enabled ==> ob.mode == "ws"@,
    ensures
        offered_answers(Some(cfg), providers).save,
        answered_config(Some(cfg), providers, offered_answers(Some(cfg), providers)) == (ConfigView {
            onebot: match cfg.onebot {
                Some(ob) if ob.enabled => Some(ob),
                _ => None,
            },
            ..cfg
        }),
{
    lemma_provider_at(providers, cfg.api_url);
    match cfg.onebot {
        Some(ob) => {
            law_id_lists_round_trip(ob.friend_ids);
            law_id_lists_round_trip(ob.group_ids);
        },
        None => {},
    }
    if cfg.api_key.len() == 0 {
        assert(cfg.api_key =~= Seq::empty());
    }
    match cfg.onebot {
        Some(ob) => {
            if ob.access_token.len() == 0 {
                assert(ob.access_token =~= Seq::empty());
            }
        },
        None => {},
    }
}

// Masked input -----------------------------------------------------------------------

/// A key of the keyboard.
#[derive(Debug, Clone, Copy, PartialEq, Eq, Structural)]
pub enum Key {
    Char(char),
    Backspace,
    Enter,
    Other,
}

/// What is to be done on the screen after a key.
#[derive(Debug, Clone, Copy, PartialEq, Eq, Structural)]
pub enum Echo {
    /// Show one more star.
    Star,
    /// Take one star away.
    Erase,
    /// Nothing.
    Nothing,
    /// The input is complete.
    Complete,
    /// The user interrupted.
    Interrupt,
}

/// Whether a character is an ASCII control character.
pub open spec fn is_control(c: char) -> bool {
    c < ' ' || c == '\x7f'
}

/// Input that is not shown. The view is what was typed.
pub struct MaskedInput {
    typed: Vec<char>,
}

impl View for MaskedInput {
    type V = Seq<char>;

    closed spec fn view(&self) -> Seq<char> {
        self.typed@
    }
}

/// What a key does to the input.
pub open spec fn after_key(typed: Seq<char>, key: Key) -> (Seq<char>, Echo) {
    match key {
        Key::Char(c) => if !is_control(c) {
            (typed.push(c), Echo::Star)
        } else if c == '\x03' {
            (typed, Echo::Interrupt)
        } else {
            (typed, Echo::Nothing)
        },
        Key::Backspace => if typed.len() > 0 {
            (typed.drop_last(), Echo::Erase)
        } else {
            (typed, Echo::Nothing)
        },
        Key::Enter => (typed, Echo::Complete),
        Key::Other => (typed, Echo::Nothing),
    }
}

/// What a completed input leads to.
#[derive(Debug)]
pub enum Entered {
    /// The line to show, and what was typed.
    Accept { line: String, value: String },
    /// The error to show; the question is asked again.
    Reject { error: String },
}

impl MaskedInput {
    pub fn new() -> (r: Self)
        ensures
            r@ == Seq::<char>::empty(),
    {
        let r = MaskedInput { typed: Vec::new() };
        assert(r@ =~= Seq::<char>::empty());
        r
    }

    /// Takes a key.
    pub fn press(&mut self, key: Key) -> (r: Echo)
        ensures
            (final(self)@, r) == after_key(old(self)@, key),
    {
        match key {
            Key::Char(c) => if !(c < ' ' || c == '\x7f') {
                self.typed.push(c);
                Echo::Star
            } else if c == '\x03' {
                Echo::Interrupt
            } else {
                Echo::Nothing
            },
            Key::Backspace => if self.typed.len() > 0 {
                let ghost before = self.typed@;
                self.typed.pop();
                assert(self.typed@ =~= before.drop_last());
                Echo::Erase
            } else {
                Echo::Nothing
            },
            Key::Enter => Echo::Complete,
            Key::Other => Echo::Nothing,
        }
    }

    /// How many stars are shown: one for each character typed.
    pub fn stars(&self) -> (r: usize)
        ensures
            r == self@.len(),
    {
        self.typed.len()
    }

    /// What the completed input leads to.
    pub fn complete(&self, prompt: &str, allow_empty: bool) -> (r: Entered)
        ensures
            if self@.len() == 0 && !allow_empty {
                r matches Entered::Reject { error } && error@ == "error: "@ + prompt@
                    + " cannot be empty"@
            } else {
                r matches Entered::Accept { line, value } && value@ == self@ && line@ == (
                if self@.len() == 0 {
                    "[empty]"@
                } else {
                    "[hidden]"@
                })
            },
    {
        if self.typed.len() == 0 && !allow_empty {
            return Entered::Reject {
                error: "error: ".to_owned().concat(prompt).concat(" cannot be empty"),
            };
        }
        let line = if self.typed.len() == 0 {
            "[empty]".to_owned()
        } else {
            "[hidden]".to_owned()
        };
        let value = text::string_of(&self.typed, 0, self.typed.len());
        assert(value@ =~= self@);
        Entered::Accept { line, value }
    }
}

// Summary ----------------------------------------------------------------------------

/// The rule above and below the summary.
pub const RULE: &'static str = "══════════════════════════════════════";

/// The line on OneBot in the summary.
pub open spec fn onebot_line(onebot: Option<OnebotConfig>) -> Seq<char> {
    match onebot {
        Some(ob) if ob.enabled => "  OneBot  : enabled ("@ + ob.mode@ + " -> "@ + ob.ws_url@ + ")"@,
        _ => "  OneBot  : disabled"@,
    }
}

/// The lines of the summary. `shown` is the masked key.
pub open spec fn summary_lines(cfg: Config, shown: Seq<char>) -> Seq<Seq<char>> {
    seq![
        RULE@,
        "  Configuration Summary"@,
        RULE@,
        "  API URL : "@ + cfg.api_url@,
        "  API Key : "@ + shown,
        "  Model   : "@ + cfg.model@,
        "  WebSearch: "@ + (if cfg.web_search {
            "enabled"@
        } else {
            "disabled"@
        }),
        onebot_line(cfg.onebot),
        RULE@,
    ]
}

/// The summary of a configuration; the key is shown masked.
pub fn summary(cfg: &Config) -> (r: Vec<String>)
    requires
        can_mask(cfg.api_key@),
    ensures
        text::texts(r@) == summary_lines(*cfg, masked(cfg.api_key@)),
{
    let shown = mask_key(cfg.api_key.as_str());
    let mut r: Vec<String> = Vec::new();
    r.push(RULE.to_owned());
    r.push("  Configuration Summary".to_owned());
    r.push(RULE.to_owned());
    r.push("  API URL : ".to_owned().concat(cfg.api_url.as_str()));
    r.push("  API Key : ".to_owned().concat(shown.as_str()));
    r.push("  Model   : ".to_owned().concat(cfg.model.as_str()));
    r.push(
        "  WebSearch: ".to_owned().concat(
            if cfg.web_search {
                "enabled"
            } else {
                "disabled"
            },
        ),
    );
    let line = match &cfg.onebot {
        Some(ob) => if ob.enabled {
            "  OneBot  : enabled (".to_owned().concat(ob.mode.as_str()).concat(" -> ").concat(
                ob.ws_url.as_str(),
            ).concat(")")
        } else {
            "  OneBot  : disabled".to_owned()
        },
        None => "  OneBot  : disabled".to_owned(),
    };
    r.push(line);
    r.push(RULE.to_owned());
    assert(text::texts(r@) =~= summary_lines(*cfg, masked(cfg.api_key@)));
    r
}

// What the wizard saves ------------------------------------------------------------------

/// Whatever configuration there was, the saved one holds what was answered: the
/// model, the search switch and, where OneBot is wanted, its address, its
/// persona and the ids of both lists. An empty token keeps the earlier one, and
/// the prefix, which is not asked for, stays.
pub proof fn law_answers_are_saved(
    existing: Option<ConfigView>,
    providers: Seq<Provider>,
    a: AnswersView,
)
    ensures
        ({
            let saved = answered_config(existing, providers, a);
            let earlier = match existing {
                Some(cfg) => cfg.onebot,
                None => None,
            };
            &&& saved.model == a.model
            &&& saved.web_search == a.web_search
            &&& saved.onebot is Some <==> a.onebot
            &&& a.onebot ==> {
                let ob = saved.onebot->Some_0;
                &&& ob.enabled
                &&& ob.mode == "ws"@
                &&& ob.ws_url == a.ws_url
                &&& ob.persona == a.persona
                &&& ob.friend_ids == ids_in(a.friends)
                &&& ob.group_ids == ids_in(a.groups)
                &&& a.access_token.len() > 0 ==> ob.access_token == a.access_token
                &&& a.access_token.len() == 0 && earlier is Some ==> ob.access_token
                    == earlier->Some_0.access_token
                &&& a.access_token.len() == 0 && earlier is None ==> ob.access_token.len() == 0
                &&& earlier is Some ==> ob.prefix == earlier->Some_0.prefix
                &&& earlier is None ==> ob.prefix.len() == 0
            }
        }),
{
}

/// Different answers are saved differently, whatever configurations there were
/// before: another model, another search switch, another address of OneBot or
/// another persona each gives another configuration.
pub proof fn law_different_answers_are_saved_differently(
    existing: Option<ConfigView>,
    other: Option<ConfigView>,
    providers: Seq<Provider>,
    a: AnswersView,
    b: AnswersView,
)
    ensures
        ({
            let x = answered_config(existing, providers, a);
            let y = answered_config(other, providers, b);
            &&& a.model != b.model ==> x.model != y.model
            &&& a.web_search != b.web_search ==> x.web_search != y.web_search
            &&& a.onebot != b.onebot ==> (x.onebot is Some) != (y.onebot is Some)
            &&& a.onebot && b.onebot && a.ws_url != b.ws_url ==> x.onebot->Some_0.ws_url
                != y.onebot->Some_0.ws_url
            &&& a.onebot && b.onebot && a.persona != b.persona ==> x.onebot->Some_0.persona
                != y.onebot->Some_0.persona
        }),
{
}

/// The address is that of the chosen provider, and the answered one where any
/// other is chosen. An answered key is saved as it is. An empty answer keeps the
/// earlier key, but only for the address that the key was for: it never goes
/// to another provider of the list.
pub proof fn law_keys_stay_with_their_address(
    existing: Option<ConfigView>,
    providers: Seq<Provider>,
    a: AnswersView,
)
    ensures
        ({
            let saved = answered_config(existing, providers, a);
            let listed = 0 <= a.provider < providers.len();
            &&& listed && providers[a.provider].url is Some ==> saved.api_url
                == providers[a.provider].url->Some_0@
            &&& listed && providers[a.provider].url is None ==> saved.api_url.len() == 0
            &&& !listed ==> saved.api_url == a.api_url
            &&& a.api_key.len() > 0 ==> saved.api_key == a.api_key
            &&& a.api_key.len() == 0 && existing is None ==> saved.api_key.len() == 0
            &&& a.api_key.len() == 0 && existing is Some && (!listed || saved.api_url
                == existing->Some_0.api_url) ==> saved.api_key == existing->Some_0.api_key
            &&& a.api_key.len() == 0 && existing is Some && listed && saved.api_url
                != existing->Some_0.api_url ==> saved.api_key.len() == 0
        }),
{
    let saved = answered_config(existing, providers, a);
    if a.api_key.len() == 0 && existing is Some {
        assert(a.api_key =~= Seq::empty());
        if existing->Some_0.api_key.len() == 0 {
            assert(existing->Some_0.api_key =~= Seq::empty());
        }
    }
}

/// The key that an empty answer keeps is the earlier one, whole; there is none
/// without an earlier configuration, for another listed address, and where the
/// earlier key is empty.
pub proof fn law_only_the_earlier_key_is_kept(
    cfg: ConfigView,
    providers: Seq<Provider>,
    chosen: int,
)
    ensures
        kept_key_of(None, providers, chosen) is None,
        kept_key_of(Some(cfg), providers, chosen) matches Some(key) ==> key == cfg.api_key
            && key.len() > 0,
        cfg.api_key.len() > 0 && !(0 <= chosen < providers.len()) ==> kept_key_of(
            Some(cfg),
            providers,
            chosen,
        ) == Some(cfg.api_key),
        0 <= chosen < providers.len() && providers[chosen].url is Some ==> (kept_key_of(
            Some(cfg),
            providers,
            chosen,
        ) is Some <==> cfg.api_key.len() > 0 && providers[chosen].url->Some_0@ == cfg.api_url),
{
}

/// The entry that is chosen at first is the first provider with the address of
/// the configuration, and the entry behind all providers where none has it.
pub proof fn law_the_first_matching_provider_is_chosen(
    providers: Seq<Provider>,
    url: Seq<char>,
    i: int,
)
    ensures
        0 <= provider_at(providers, url) <= providers.len(),
        provider_at(providers, url) < providers.len() ==> ({
            let p = providers[provider_at(providers, url)];
            p.url is Some && p.url->Some_0@ == url
        }),
        0 <= i < provider_at(providers, url) ==> !(providers[i].url is Some
            && providers[i].url->Some_0@ == url),
    decreases providers.len(),
{
    if providers.len() > 0 && text::opt_text(providers[0].url) != Some(url) {
        let rest = providers.drop_first();
        law_the_first_matching_provider_is_chosen(rest, url, i - 1);
        let k = provider_at(rest, url);
        if k < rest.len() {
            assert(rest[k] == providers[k + 1]);
        }
        if 0 < i < provider_at(providers, url) {
            assert(rest[i - 1] == providers[i]);
        }
    }
}

/// The model of an existing configuration is offered again; else that of the
/// chosen provider, else a common one.
pub proof fn law_the_known_model_is_offered(
    cfg: ConfigView,
    providers: Seq<Provider>,
    chosen: int,
)
    ensures
        model_offered(Some(cfg), providers, chosen) == cfg.model,
        0 <= chosen < providers.len() && providers[chosen].default_model is Some ==> model_offered(
            None,
            providers,
            chosen,
        ) == providers[chosen].default_model->Some_0@,
        0 <= chosen < providers.len() && providers[chosen].default_model is None ==> model_offered(
            None,
            providers,
            chosen,
        ) == "gpt-4o"@,
        !(0 <= chosen < providers.len()) ==> model_offered(None, providers, chosen) == "gpt-4o"@,
{
}

/// Without a configuration the wizard offers any other provider, the common
/// address and model, search switched on and OneBot off.
pub proof fn law_first_offers(providers: Seq<Provider>)
    ensures
        ({
            let a = offered_answers(None, providers);
            &&& a.provider == providers.len()
            &&& a.api_url == "https://api.openai.com/v1"@
            &&& a.api_key.len() == 0
            &&& a.model == "gpt-4o"@
            &&& a.web_search
            &&& !a.onebot
            &&& a.ws_url == "ws://127.0.0.1:3001"@
            &&& a.access_token.len() == 0
            &&& a.persona.len() == 0
            &&& a.friends.len() == 0
            &&& a.groups.len() == 0
            &&& a.save
        }),
{
}

/// Ids are read one by one: a comma or white space parts a text in two that are
/// read each by itself, and what stands between separators is its integer where
/// it is one, and nothing else.
pub proof fn law_ids_are_read_one_by_one(
    before: Seq<char>,
    c: char,
    after: Seq<char>,
    one: Seq<char>,
)
    requires
        c == ',' || text::white_space(c),
        forall|i: int|
            0 <= i < one.len() ==> (#[trigger] one[i]) != ',' && !text::white_space(one[i]),
    ensures
        ids_in(before.push(c) + after) == ids_in(before) + ids_in(after),
        number::i64_of(one) matches Some(n) ==> ids_in(one) == seq![n],
        number::i64_of(one) is None ==> ids_in(one).len() == 0,
{
    lemma_ids_part(before, c, after);
    lemma_first_separator(one);
    if first_separator(one) < one.len() {
        assert(one[first_separator(one)] != ',');
    }
    assert(one.take(one.len() as int) =~= one);
    if one.len() > 0 {
        assert(!text::white_space(one[0]));
        assert(!text::white_space(one[one.len() - 1]));
        let none = Seq::<char>::empty();
        text::law_trimming_gives_the_core(none, one, none);
    } else {
        assert(text::trim(one) =~= one);
    }
}

proof fn lemma_ids_part(before: Seq<char>, c: char, after: Seq<char>)
    requires
        separates(c),
    ensures
        ids_in(before.push(c) + after) == ids_in(before) + ids_in(after),
    decreases before.len(),
{
    let all = before.push(c) + after;
    let k = first_separator(before);
    lemma_first_separator(before);
    lemma_first_separator(all);
    let j = first_separator(all);
    if k < before.len() {
        assert(all[k] == before[k]);
        if j < k {
            assert(all[j] == before[j]);
        }
        if j > k {
            assert(!separates(all[k]));
        }
        assert(all.take(k) =~= before.take(k));
        assert(all.skip(k + 1) =~= before.skip(k + 1).push(c) + after);
        lemma_ids_part(before.skip(k + 1), c, after);
        assert(ids_in(all) =~= ids_in(before) + ids_in(after));
    } else {
        assert(all[k] == c);
        if j < k {
            assert(all[j] == before[j]);
        }
        if j > k {
            assert(!separates(all[k]));
        }
        assert(all.take(k) =~= before.take(k));
        assert(all.skip(k + 1) =~= after);
        assert(ids_in(all) =~= ids_in(before) + ids_in(after));
    }
}

/// A long key shows its first and its last four bytes around stars, a short one
/// nothing but a star for each byte.
pub proof fn law_masked_keys_show_the_ends(head: Seq<char>, hidden: Seq<char>, tail: Seq<char>)
    requires
        encode_utf8(head).len() == 4,
        encode_utf8(tail).len() == 4,
        hidden.len() > 0,
    ensures
        masked(head + hidden + tail) == head + "****"@ + tail,
        encode_utf8(hidden).len() <= 8 ==> masked(hidden).len() == encode_utf8(hidden).len()
            && forall|i: int|
            0 <= i < masked(hidden).len() ==> #[trigger] masked(hidden)[i] == '*',
{
    let key = head + hidden + tail;
    lemma_encoding_extends(head + hidden, tail);
    lemma_encoding_extends(head, hidden);
    let bytes = encode_utf8(key);
    let n = bytes.len() as int;
    encode_utf8_first_scalar(hidden);
    assert(encode_utf8(hidden).len() > 0);
    assert(bytes.subrange(0, 4) =~= encode_utf8(head));
    assert(bytes.subrange(n - 4, n) =~= encode_utf8(tail));
    encode_utf8_decode_utf8(head);
    encode_utf8_decode_utf8(tail);
}

proof fn lemma_encoding_extends(first: Seq<char>, second: Seq<char>)
    ensures
        encode_utf8(first + second) == encode_utf8(first) + encode_utf8(second),
    decreases first.len(),
{
    if first.len() == 0 {
        assert(first + second =~= second);
        assert(encode_utf8(first) + encode_utf8(second) =~= encode_utf8(second));
    } else {
        lemma_encoding_extends(first.drop_first(), second);
        assert((first + second).drop_first() =~= first.drop_first() + second);
        assert((first + second)[0] == first[0]);
        assert(encode_utf8(first + second) =~= encode_utf8(first) + encode_utf8(second));
    }
}

/// Typing keeps every visible character and shows a star for it; the backspace
/// key undoes it. Control characters are not taken, and the one for an
/// interrupt interrupts. The enter key completes what was typed.
pub proof fn law_keys_edit_what_was_typed(typed: Seq<char>, c: char)
    ensures
        c >= ' ' && c != '\x7f' ==> after_key(typed, Key::Char(c)) == (typed.push(c), Echo::Star)
            && after_key(typed.push(c), Key::Backspace) == (typed, Echo::Erase),
        c < ' ' || c == '\x7f' ==> after_key(typed, Key::Char(c)).0 == typed,
        after_key(typed, Key::Char('\x03')).1 is Interrupt,
        c < ' ' && c != '\x03' ==> after_key(typed, Key::Char(c)).1 is Nothing,
        typed.len() == 0 ==> after_key(typed, Key::Backspace) == (typed, Echo::Nothing),
        after_key(typed, Key::Enter) == (typed, Echo::Complete),
        after_key(typed, Key::Other) == (typed, Echo::Nothing),
{
    assert(typed.push(c).drop_last() =~= typed);
}

/// The summary shows the address, the model and the search switch as they are,
/// and of the key only the text that may be shown.
pub proof fn law_summaries_show_the_configuration(cfg: Config, shown: Seq<char>)
    ensures
        ({
            let lines = summary_lines(cfg, shown);
            &&& lines.len() == 9
            &&& lines[3] == "  API URL : "@ + cfg.api_url@
            &&& lines[4] == "  API Key : "@ + shown
            &&& lines[5] == "  Model   : "@ + cfg.model@
            &&& cfg.web_search ==> lines[6] == "  WebSearch: "@ + "enabled"@
            &&& !cfg.web_search ==> lines[6] == "  WebSearch: "@ + "disabled"@
            &&& cfg.onebot is Some && cfg.onebot->Some_0.enabled ==> lines[7]
                == "  OneBot  : enabled ("@ + cfg.onebot->Some_0.mode@ + " -> "@
                + cfg.onebot->Some_0.ws_url@ + ")"@
            &&& cfg.onebot is None || !cfg.onebot->Some_0.enabled ==> lines[7]
                == "  OneBot  : disabled"@
        }),
{
}

/// The views of a configuration and of answers show every field.
pub proof fn law_configuration_views_show_every_field(cfg: Config, a: WizardAnswers)
    ensures
        cfg@.api_url == cfg.api_url@,
        cfg@.api_key == cfg.api_key@,
        cfg@.model == cfg.model@,
        cfg@.web_search == cfg.web_search,
        cfg.onebot is None ==> cfg@.onebot is None,
        cfg.onebot matches Some(ob) ==> cfg@.onebot == Some(ob@),
        opt_view(Some(cfg)) == Some(cfg@),
        opt_view(None) is None,
        a@.provider == a.provider,
        a@.api_url == a.api_url@,
        a@.api_key == a.api_key@,
        a@.model == a.model@,
        a@.web_search == a.web_search,
        a@.onebot == a.onebot,
        a@.ws_url == a.ws_url@,
        a@.access_token == a.access_token@,
        a@.persona == a.persona@,
        a@.friends == a.friends@,
        a@.groups == a.groups@,
        a@.save == a.save,
{
}

/// The configuration that the wizard saves holds the answered model, search
/// switch and, where OneBot is wanted, address and persona, whatever
/// configuration there was.
pub proof fn law_saved_configurations_hold_the_answers(
    existing: Option<Config>,
    providers: Vec<Provider>,
    answers: WizardAnswers,
    r: Config,
)
    requires
        call_ensures(wizard_config, (&existing, &providers, &answers), r),
    ensures
        r.model@ == answers.model@,
        r.web_search == answers.web_search,
        r.onebot is Some <==> answers.onebot,
        r.onebot matches Some(ob) ==> ob.enabled && ob.mode@ == "ws"@ && ob.ws_url@
            == answers.ws_url@ && ob.persona@ == answers.persona@ && ob.friend_ids@ == ids_in(
            answers.friends@,
        ) && ob.group_ids@ == ids_in(answers.groups@),
        answers.api_key@.len() > 0 ==> r.api_key@ == answers.api_key@,
        answers.provider >= providers@.len() ==> r.api_url@ == answers.api_url@,
{
    law_answers_are_saved(opt_view(existing), providers@, answers@);
    law_keys_stay_with_their_address(opt_view(existing), providers@, answers@);
    match r.onebot {
        Some(ob) => {
            assert(r@.onebot == Some(ob@));
        },
        None => {},
    }
}

/// What was typed is what is entered, whole; only an empty input that may not be
/// empty is rejected.
pub proof fn law_typed_input_is_entered_whole(
    input: MaskedInput,
    prompt: &str,
    allow_empty: bool,
    r: Entered,
)
    requires
        call_ensures(MaskedInput::complete, (&input, prompt, allow_empty), r),
    ensures
        r is Reject <==> input@.len() == 0 && !allow_empty,
        r matches Entered::Accept { line, value } ==> value@ == input@,
        r matches Entered::Accept { line, value } ==> line@ == "[empty]"@ || line@ == "[hidden]"@,
{
}

/// Every short key can be masked, and every longer one whose first and last four
/// bytes are whole characters.
pub proof fn law_keys_with_whole_ends_can_be_masked(
    head: Seq<char>,
    hidden: Seq<char>,
    tail: Seq<char>,
)
    ensures
        encode_utf8(hidden).len() <= 8 ==> can_mask(hidden),
        encode_utf8(head).len() == 4 && encode_utf8(tail).len() == 4 ==> can_mask(
            head + hidden + tail,
        ),
{
    lemma_encoding_extends(head + hidden, tail);
    lemma_parts_meet_at_a_boundary(head + hidden, tail);
    lemma_parts_meet_at_a_boundary(head, hidden + tail);
    assert(head + (hidden + tail) =~= head + hidden + tail);
}

proof fn lemma_parts_meet_at_a_boundary(first: Seq<char>, second: Seq<char>)
    ensures
        is_char_boundary(encode_utf8(first + second), encode_utf8(first).len() as int),
    decreases first.len(),
{
    let all = first + second;
    let bytes = encode_utf8(all);
    encode_utf8_valid_utf8(all);
    lemma_encoding_extends(first, second);
    if first.len() > 0 {
        let rest = first.drop_first();
        encode_utf8_first_scalar(all);
        encode_utf8_first_scalar(first);
        assert(all.drop_first() =~= rest + second);
        assert(all[0] == first[0]);
        lemma_parts_meet_at_a_boundary(rest, second);
        let n = length_of_first_scalar(bytes);
        assert(pop_first_scalar(bytes) =~= encode_utf8(rest + second));
        assert(encode_utf8(first).len() == n + encode_utf8(rest).len());
    }
}

/// With a configuration the wizard offers what is configured, every field of it;
/// the key and the token are never shown.
pub proof fn law_configured_values_are_offered(cfg: ConfigView, providers: Seq<Provider>)
    ensures
        ({
            let a = offered_answers(Some(cfg), providers);
            &&& a.provider == provider_at(providers, cfg.api_url)
            &&& a.api_url == cfg.api_url
            &&& a.model == cfg.model
            &&& a.web_search == cfg.web_search
            &&& a.api_key.len() == 0
            &&& a.access_token.len() == 0
            &&& a.onebot <==> cfg.onebot is Some && cfg.onebot->Some_0.enabled
            &&& cfg.onebot matches Some(ob) ==> {
                &&& a.ws_url == ob.ws_url
                &&& a.persona == ob.persona
                &&& ids_in(a.friends) == ob.friend_ids
                &&& ids_in(a.groups) == ob.group_ids
            }
            &&& cfg.onebot is None ==> a.ws_url == "ws://127.0.0.1:3001"@ && a.persona.len() == 0
                && a.friends.len() == 0 && a.groups.len() == 0
        }),
{
    match cfg.onebot {
        Some(ob) => {
            law_id_lists_round_trip(ob.friend_ids);
            law_id_lists_round_trip(ob.group_ids);
        },
        None => {},
    }
}

} // verus!
