//! Configuration of the OneBot adapter.

use vstd::prelude::*;
use vstd::string::*;

use crate::text;

verus! {

/// The `[onebot]` part of the configuration.
#[derive(Debug)]
pub struct OnebotConfig {
    /// Whether the bridge is started.
    pub enabled: bool,
    /// How the connection is made.
    pub mode: String,
    /// The address of the OneBot implementation.
    pub ws_url: String,
    /// The token that the implementation asks for, if any.
    pub access_token: String,
    /// The persona that answers; empty for the first one found.
    pub persona: String,
    /// Only messages that start with it are answered; empty for all.
    pub prefix: String,
    /// The friends that are answered; nobody else is.
    pub friend_ids: Vec<i64>,
    /// The groups that are answered; no other is.
    pub group_ids: Vec<i64>,
}

/// The view of an [`OnebotConfig`].
pub struct OnebotView {
    pub enabled: bool,
    pub mode: Seq<char>,
    pub ws_url: Seq<char>,
    pub access_token: Seq<char>,
    pub persona: Seq<char>,
    pub prefix: Seq<char>,
    pub friend_ids: Seq<i64>,
    pub group_ids: Seq<i64>,
}

impl View for OnebotConfig {
    type V = OnebotView;

    open spec fn view(&self) -> OnebotView {
        OnebotView {
            enabled: self.enabled,
            mode: self.mode@,
            ws_url: self.ws_url@,
            access_token: self.access_token@,
            persona: self.persona@,
            prefix: self.prefix@,
            friend_ids: self.friend_ids@,
            group_ids: self.group_ids@,
        }
    }
}

/// The view of an optional configuration.
pub open spec fn opt_view(cfg: Option<OnebotConfig>) -> Option<OnebotView> {
    match cfg {
        Some(ob) => Some(ob@),
        None => None,
    }
}

impl Default for OnebotConfig {
    fn default() -> (r: Self)
        ensures
            !r.enabled,
            r.mode@ == "ws"@,
            r.ws_url@ == Seq::<char>::empty(),
            r.access_token@ == Seq::<char>::empty(),
            r.persona@ == Seq::<char>::empty(),
            r.prefix@ == Seq::<char>::empty(),
            r.friend_ids@ == Seq::<i64>::empty(),
            r.group_ids@ == Seq::<i64>::empty(),
    {
        let r = OnebotConfig {
            enabled: false,
            mode: "ws".to_owned(),
            ws_url: String::new(),
            access_token: String::new(),
            persona: String::new(),
            prefix: String::new(),
            friend_ids: Vec::new(),
            group_ids: Vec::new(),
        };
        assert(r.ws_url@ =~= Seq::<char>::empty());
        assert(r.access_token@ =~= Seq::<char>::empty());
        assert(r.persona@ =~= Seq::<char>::empty());
        assert(r.prefix@ =~= Seq::<char>::empty());
        r
    }
}

fn copy_ids(ids: &Vec<i64>) -> (r: Vec<i64>)
    ensures
        r@ == ids@,
{
    let mut r: Vec<i64> = Vec::new();
    let mut i: usize = 0;
    while i < ids.len()
        invariant
            i <= ids@.len(),
            r@ == ids@.take(i as int),
        decreases ids@.len() - i,
    {
        r.push(ids[i]);
        i = i + 1;
        assert(r@ =~= ids@.take(i as int));
    }
    assert(ids@.take(i as int) =~= ids@);
    r
}

/// Whether two configurations are the same.
pub open spec fn same_config(a: OnebotConfig, b: OnebotConfig) -> bool {
    &&& a.enabled == b.enabled
    &&& a.mode == b.mode
    &&& a.ws_url == b.ws_url
    &&& a.access_token == b.access_token
    &&& a.persona == b.persona
    &&& a.prefix == b.prefix
    &&& a.friend_ids@ == b.friend_ids@
    &&& a.group_ids@ == b.group_ids@
}

impl Clone for OnebotConfig {
    fn clone(&self) -> (r: Self)
        ensures
            same_config(r, *self),
    {
        OnebotConfig {
            enabled: self.enabled,
            mode: self.mode.clone(),
            ws_url: self.ws_url.clone(),
            access_token: self.access_token.clone(),
            persona: self.persona.clone(),
            prefix: self.prefix.clone(),
            friend_ids: copy_ids(&self.friend_ids),
            group_ids: copy_ids(&self.group_ids),
        }
    }
}

impl OnebotConfig {
    /// The value of the `Authorization` header, where a token is set.
    pub fn authorization(&self) -> (r: Option<String>)
        ensures
            text::opt_text(r) == (if self.access_token@.len() == 0 {
                None
            } else {
                Some("Bearer "@ + self.access_token@)
            }),
    {
        if text::is_empty(self.access_token.as_str()) {
            None
        } else {
            Some("Bearer ".to_owned().concat(self.access_token.as_str()))
        }
    }
}

/// Whether a number is in a list.
pub fn lists(ids: &Vec<i64>, id: i64) -> (r: bool)
    ensures
        r == ids@.contains(id),
{
    let mut i: usize = 0;
    while i < ids.len()
        invariant
            i <= ids@.len(),
            forall|j: int| 0 <= j < i ==> ids@[j] != id,
        decreases ids@.len() - i,
    {
        if ids[i] == id {
            return true;
        }
        i = i + 1;
    }
    false
}

/// The view of a configuration shows every field of it.
pub proof fn law_onebot_views_show_every_field(cfg: OnebotConfig)
    ensures
        cfg@.enabled == cfg.enabled,
        cfg@.mode == cfg.mode@,
        cfg@.ws_url == cfg.ws_url@,
        cfg@.access_token == cfg.access_token@,
        cfg@.persona == cfg.persona@,
        cfg@.prefix == cfg.prefix@,
        cfg@.friend_ids == cfg.friend_ids@,
        cfg@.group_ids == cfg.group_ids@,
        opt_view(Some(cfg)) == Some(cfg@),
        opt_view(None) is None,
        same_config(cfg, cfg),
{
}

/// Copies of a configuration agree in every field.
pub proof fn law_copies_agree_in_every_field(a: OnebotConfig, b: OnebotConfig)
    requires
        same_config(a, b),
    ensures
        a.enabled == b.enabled,
        a.mode@ == b.mode@,
        a.ws_url@ == b.ws_url@,
        a.access_token@ == b.access_token@,
        a.persona@ == b.persona@,
        a.prefix@ == b.prefix@,
        a.friend_ids@ == b.friend_ids@,
        a.group_ids@ == b.group_ids@,
{
}

} // verus!
