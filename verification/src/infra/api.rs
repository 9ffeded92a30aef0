//! The decisions of the HTTP interface.

use vstd::prelude::*;
use vstd::string::*;

use crate::text;

verus! {

/// The status of an answer.
#[derive(Debug, Clone, Copy, PartialEq, Eq, Structural)]
pub enum Status {
    Success,
    Created,
    NoContent,
    BadRequest,
    NotFound,
    InternalServerError,
}

/// The code of a status.
pub open spec fn code_of(status: Status) -> u16 {
    match status {
        Status::Success => 200,
        Status::Created => 201,
        Status::NoContent => 204,
        Status::BadRequest => 400,
        Status::NotFound => 404,
        Status::InternalServerError => 500,
    }
}

impl Status {
    /// The code of the status.
    pub fn code(&self) -> (r: u16)
        ensures
            r == code_of(*self),
    {
        match self {
            Status::Success => 200,
            Status::Created => 201,
            Status::NoContent => 204,
            Status::BadRequest => 400,
            Status::NotFound => 404,
            Status::InternalServerError => 500,
        }
    }
}

/// An error answer.
#[derive(Debug)]
pub struct ApiError {
    pub status: Status,
    pub error: String,
}

/// An error answer.
pub fn err(status: Status, error: String) -> (r: ApiError)
    ensures
        r.status == status,
        r.error == error,
{
    ApiError { status, error }
}

/// What an operation of the persona store is answered with: its own success
/// status, else an internal error with the store's message.
pub fn answer(success: Status, outcome: Result<(), String>) -> (r: Result<Status, ApiError>)
    ensures
        match outcome {
            Ok(()) => r matches Ok(s) && s == success,
            Err(e) => r matches Err(x) && x.status is InternalServerError && x.error == e,
        },
{
    match outcome {
        Ok(()) => Ok(success),
        Err(e) => Err(err(Status::InternalServerError, e)),
    }
}

/// The name of a persona to create: the requested one without surrounding
/// white space, which must leave something.
pub fn requested_name(name: &str) -> (r: Result<String, ApiError>)
    ensures
        match r {
            Ok(n) => n@ == text::trim(name@) && n@.len() > 0,
            Err(e) => text::trim(name@).len() == 0 && e.status is BadRequest && e.error@
                == "name is required"@,
        },
{
    let trimmed = text::trimmed(name);
    if text::is_empty(trimmed.as_str()) {
        Err(err(Status::BadRequest, "name is required".to_owned()))
    } else {
        Ok(trimmed)
    }
}

/// What a persona is described as.
#[derive(Debug)]
pub struct PersonaInfo {
    pub name: String,
    pub files: Vec<String>,
}

/// The description of a persona, where it is among the known names.
pub fn persona_info(names: &Vec<String>, name: String) -> (r: Result<PersonaInfo, ApiError>)
    ensures
        match r {
            Ok(info) => {
                &&& text::texts(names@).contains(name@)
                &&& info.name == name
                &&& text::texts(info.files@) == seq!["solo.md"@, "memory.md"@]
            },
            Err(e) => {
                &&& !text::texts(names@).contains(name@)
                &&& e.status is NotFound
                &&& e.error@ == "persona not found"@
            },
        },
{
    let ghost known = text::texts(names@);
    let mut i: usize = 0;
    while i < names.len()
        invariant
            i <= names@.len(),
            known == text::texts(names@),
            forall|j: int| 0 <= j < i ==> #[trigger] known[j] != name@,
        decreases names@.len() - i,
    {
        assert(known[i as int] == names@[i as int]@);
        if text::str_eq(names[i].as_str(), name.as_str()) {
            let mut files: Vec<String> = Vec::new();
            files.push("solo.md".to_owned());
            files.push("memory.md".to_owned());
            assert(text::texts(files@) =~= seq!["solo.md"@, "memory.md"@]);
            return Ok(PersonaInfo { name, files });
        }
        i = i + 1;
    }
    Err(err(Status::NotFound, "persona not found".to_owned()))
}

/// What reading a file of a persona is answered with.
pub fn file_answer(content: Option<String>, name: &str, filename: &str) -> (r: Result<
    String,
    ApiError,
>)
    ensures
        match content {
            Some(c) => r matches Ok(s) && s == c,
            None => r matches Err(e) && e.status is NotFound && e.error@ == "file not found: "@
                + name@ + "/"@ + filename@,
        },
{
    match content {
        Some(c) => Ok(c),
        None => Err(
            err(
                Status::NotFound,
                "file not found: ".to_owned().concat(name).concat("/").concat(filename),
            ),
        ),
    }
}

/// The error of a chat log that is asked of an unknown persona.
pub fn unknown_persona(name: &str) -> (r: ApiError)
    ensures
        r.status is NotFound,
        r.error@ == "persona not found: "@ + name@,
{
    err(Status::NotFound, "persona not found: ".to_owned().concat(name))
}

/// Every status is answered with the code that HTTP gives it.
pub proof fn law_statuses_have_their_codes(status: Status)
    ensures
        code_of(status) == 200 <==> status is Success,
        code_of(status) == 201 <==> status is Created,
        code_of(status) == 204 <==> status is NoContent,
        code_of(status) == 400 <==> status is BadRequest,
        code_of(status) == 404 <==> status is NotFound,
        code_of(status) == 500 <==> status is InternalServerError,
{
}

/// The name of a persona to create is the requested one without the white space
/// around it, and is refused exactly where nothing is left.
pub proof fn law_requested_names_are_trimmed(
    before: Seq<char>,
    core: Seq<char>,
    after: Seq<char>,
    name: &str,
    r: Result<String, ApiError>,
)
    requires
        call_ensures(requested_name, (name,), r),
        text::all_white(before),
        text::all_white(after),
        core.len() > 0,
        !text::white_space(core[0]),
        !text::white_space(core.last()),
    ensures
        name@ == before + core + after ==> r is Ok && r->Ok_0@ == core,
        text::all_white(name@) ==> r is Err && r->Err_0.status is BadRequest,
{
    text::law_trimming_gives_the_core(before, core, after);
    text::law_blank_texts_are_white_space(name@);
}

/// A persona is described where it is among the known names and is not found
/// elsewhere; a file is answered with its whole content where there is one.
pub proof fn law_what_is_known_is_found(
    names: Vec<String>,
    name: String,
    info: Result<PersonaInfo, ApiError>,
    content: Option<String>,
    persona: &str,
    filename: &str,
    file: Result<String, ApiError>,
)
    requires
        call_ensures(persona_info, (&names, name), info),
        call_ensures(file_answer, (content, persona, filename), file),
    ensures
        info is Ok <==> exists|i: int| 0 <= i < names@.len() && (#[trigger] names@[i])@ == name@,
        info matches Ok(p) ==> p.name@ == name@ && text::texts(p.files@) == seq![
            "solo.md"@,
            "memory.md"@,
        ],
        info matches Err(e) ==> e.status is NotFound,
        content matches Some(c) ==> file is Ok && file->Ok_0@ == c@,
        content is None ==> file is Err && file->Err_0.status is NotFound,
{
    let known = text::texts(names@);
    if info is Ok {
        let i = choose|i: int| 0 <= i < known.len() && known[i] == name@;
        assert(names@[i]@ == name@);
    } else if exists|i: int| 0 <= i < names@.len() && (#[trigger] names@[i])@ == name@ {
        let i = choose|i: int| 0 <= i < names@.len() && (#[trigger] names@[i])@ == name@;
        assert(known[i] == name@);
    }
}

/// An operation that succeeded is answered with its own status, one that failed
/// with an internal error and the whole reason.
pub proof fn law_failures_are_answered_as_such(
    success: Status,
    outcome: Result<(), String>,
    r: Result<Status, ApiError>,
)
    requires
        call_ensures(answer, (success, outcome), r),
    ensures
        outcome is Ok ==> r is Ok && r->Ok_0 == success,
        outcome matches Err(e) ==> r is Err && r->Err_0.status is InternalServerError
            && r->Err_0.error@ == e@,
{
}

} // verus!
