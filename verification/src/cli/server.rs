//! The start of the server: what stops it, and which persona answers.

use vstd::prelude::*;
use vstd::string::*;

use crate::onebot::config::OnebotConfig;
use crate::text;

verus! {

/// The error of a configuration that could not be loaded.
pub fn config_error(cause: &str) -> (r: String)
    ensures
        r@ == "Failed to load ~/.nota/config.toml: "@ + cause@
            + ". Run `nota onboard` to configure the API first."@,
{
    "Failed to load ~/.nota/config.toml: ".to_owned().concat(cause).concat(
        ". Run `nota onboard` to configure the API first.",
    )
}

/// The server starts only when there is a persona.
pub fn require_personas(names: &Vec<String>) -> (r: Result<(), String>)
    ensures
        match r {
            Ok(()) => names@.len() > 0,
            Err(e) => names@.len() == 0 && e@
                == "No personas found in ~/.nota/personas/. Create one via `nota persona create` or `nota onboard` first."@,
        },
{
    if names.len() == 0 {
        Err(
            "No personas found in ~/.nota/personas/. Create one via `nota persona create` or `nota onboard` first.".to_owned(),
        )
    } else {
        Ok(())
    }
}

/// What listing the personas prints.
pub fn persona_listing(names: Vec<String>) -> (r: Vec<String>)
    ensures
        text::texts(r@) == (if names@.len() == 0 {
            seq!["No personas found."@]
        } else {
            text::texts(names@)
        }),
{
    if names.len() == 0 {
        let mut r: Vec<String> = Vec::new();
        r.push("No personas found.".to_owned());
        assert(text::texts(r@) =~= seq!["No personas found."@]);
        r
    } else {
        names
    }
}

/// The name of a persona to create: without surrounding white space, which
/// must leave something.
pub fn persona_name(name: &str) -> (r: Result<String, String>)
    ensures
        match r {
            Ok(n) => n@ == text::trim(name@) && n@.len() > 0,
            Err(e) => text::trim(name@).len() == 0 && e@ == "persona name cannot be empty"@,
        },
{
    let trimmed = text::trimmed(name);
    if text::is_empty(trimmed.as_str()) {
        Err("persona name cannot be empty".to_owned())
    } else {
        Ok(trimmed)
    }
}

/// What creating a persona prints.
pub fn created_line(name: &str) -> (r: String)
    ensures
        r@ == "Persona '"@ + name@ + "' created"@,
{
    "Persona '".to_owned().concat(name).concat("' created")
}

/// The persona that answers over OneBot, or why the adapter is not started.
pub open spec fn onebot_persona_of(cfg: OnebotConfig, personas: Seq<Seq<char>>) -> Result<
    Seq<char>,
    Seq<char>,
> {
    if cfg.mode@ != "ws"@ {
        Err(
            "onebot.mode = '"@ + cfg.mode@
                + "' is not supported yet; only 'ws' (forward WebSocket) is implemented"@,
        )
    } else if cfg.persona@.len() == 0 {
        if personas.len() == 0 {
            Err("OneBot is enabled but no persona exists; create one or set [onebot].persona"@)
        } else {
            Ok(personas[0])
        }
    } else if personas.contains(cfg.persona@) {
        Ok(cfg.persona@)
    } else {
        Err("onebot.persona '"@ + cfg.persona@ + "' does not exist under ~/.nota/personas"@)
    }
}

/// The persona that answers over OneBot: the configured one, which must exist,
/// or the first one when none is configured.
pub fn onebot_persona(cfg: &OnebotConfig, personas: &Vec<String>) -> (r: Result<String, String>)
    ensures
        text::outcome(r) == onebot_persona_of(*cfg, text::texts(personas@)),
{
    if !text::str_eq(cfg.mode.as_str(), "ws") {
        return Err(
            "onebot.mode = '".to_owned().concat(cfg.mode.as_str()).concat(
                "' is not supported yet; only 'ws' (forward WebSocket) is implemented",
            ),
        );
    }
    let ghost known = text::texts(personas@);
    if text::is_empty(cfg.persona.as_str()) {
        if personas.len() == 0 {
            return Err(
                "OneBot is enabled but no persona exists; create one or set [onebot].persona".to_owned(),
            );
        }
        assert(known[0] == personas@[0]@);
        return Ok(personas[0].clone());
    }
    let mut i: usize = 0;
    while i < personas.len()
        invariant
            i <= personas@.len(),
            known == text::texts(personas@),
            cfg.mode@ == "ws"@,
            cfg.persona@.len() > 0,
            forall|j: int| 0 <= j < i ==> #[trigger] known[j] != cfg.persona@,
        decreases personas@.len() - i,
    {
        assert(known[i as int] == personas@[i as int]@);
        if text::str_eq(personas[i].as_str(), cfg.persona.as_str()) {
            return Ok(cfg.persona.clone());
        }
        i = i + 1;
    }
    Err(
        "onebot.persona '".to_owned().concat(cfg.persona.as_str()).concat(
            "' does not exist under ~/.nota/personas",
        ),
    )
}

/// The adapter starts only over a forward connection. The configured persona
/// answers where it exists and no other in its place; where none is configured
/// the first one does.
pub proof fn law_the_configured_persona_answers(cfg: OnebotConfig, personas: Seq<Seq<char>>)
    ensures
        cfg.mode@ != "ws"@ ==> onebot_persona_of(cfg, personas) is Err,
        cfg.mode@ == "ws"@ && cfg.persona@.len() > 0 && personas.contains(cfg.persona@)
            ==> onebot_persona_of(cfg, personas) == Ok::<Seq<char>, Seq<char>>(cfg.persona@),
        cfg.persona@.len() > 0 && !personas.contains(cfg.persona@) ==> onebot_persona_of(
            cfg,
            personas,
        ) is Err,
        cfg.mode@ == "ws"@ && cfg.persona@.len() == 0 && personas.len() > 0 ==> onebot_persona_of(
            cfg,
            personas,
        ) == Ok::<Seq<char>, Seq<char>>(personas[0]),
        personas.len() == 0 ==> onebot_persona_of(cfg, personas) is Err,
        onebot_persona_of(cfg, personas) matches Ok(name) ==> personas.contains(name),
{
    if personas.len() > 0 {
        assert(personas.contains(personas[0]));
    }
}

/// The name of a persona to create is the given one without the white space
/// around it, and is refused exactly where nothing is left.
pub proof fn law_persona_names_are_trimmed(
    before: Seq<char>,
    core: Seq<char>,
    after: Seq<char>,
    name: &str,
    r: Result<String, String>,
)
    requires
        call_ensures(persona_name, (name,), r),
        text::all_white(before),
        text::all_white(after),
        core.len() > 0,
        !text::white_space(core[0]),
        !text::white_space(core.last()),
    ensures
        name@ == before + core + after ==> r is Ok && r->Ok_0@ == core,
        text::all_white(name@) ==> r is Err,
{
    text::law_trimming_gives_the_core(before, core, after);
    text::law_blank_texts_are_white_space(name@);
}

/// The server starts exactly where there is a persona, and a listing shows every
/// persona in its place.
pub proof fn law_personas_are_required_and_listed(
    names: Vec<String>,
    started: Result<(), String>,
    listing: Vec<String>,
    i: int,
)
    requires
        call_ensures(require_personas, (&names,), started),
        call_ensures(persona_listing, (names,), listing),
    ensures
        started is Ok <==> names@.len() > 0,
        names@.len() > 0 ==> listing@.len() == names@.len(),
        0 <= i < names@.len() ==> listing@[i]@ == names@[i]@,
{
    assert(text::texts(listing@).len() == listing@.len());
    assert(text::texts(names@).len() == names@.len());
    if 0 <= i < names@.len() {
        assert(text::texts(listing@)[i] == listing@[i]@);
        assert(text::texts(names@)[i] == names@[i]@);
    }
}

} // verus!
