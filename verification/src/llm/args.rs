//! The arguments of a tool call, held against the tool's declared parameters.

use vstd::prelude::*;
use vstd::string::*;

use crate::domain::tool;
use crate::domain::tool::{PropertyDef, ToolParams, Value};
use crate::platform;
use crate::text;

verus! {

/// Whether a value is of a declared type. A type that is not known admits
/// every value.
pub open spec fn type_admits(value: Value, prop_type: Seq<char>) -> bool {
    if prop_type == "string"@ {
        value is String
    } else if prop_type == "number"@ {
        value is Number
    } else if prop_type == "integer"@ {
        value matches Value::Number(n) && n.whole is Some
    } else if prop_type == "boolean"@ {
        value is Bool
    } else if prop_type == "array"@ {
        value is Array
    } else if prop_type == "object"@ {
        value is Object
    } else if prop_type == "null"@ {
        value is Null
    } else {
        true
    }
}

/// Whether a value is of a declared type.
pub fn value_matches_type(value: &Value, prop_type: &str) -> (r: bool)
    ensures
        r == type_admits(*value, prop_type@),
{
    if text::str_eq(prop_type, "string") {
        value.is_string()
    } else if text::str_eq(prop_type, "number") {
        value.is_number()
    } else if text::str_eq(prop_type, "integer") {
        value.as_i64().is_some()
    } else if text::str_eq(prop_type, "boolean") {
        value.is_bool()
    } else if text::str_eq(prop_type, "array") {
        value.is_array()
    } else if text::str_eq(prop_type, "object") {
        value.is_object()
    } else if text::str_eq(prop_type, "null") {
        value.is_null()
    } else {
        true
    }
}

/// Whether a value is one of the admitted strings.
pub open spec fn is_choice(value: Value, choices: Seq<Seq<char>>) -> bool {
    value matches Value::String(s) && choices.contains(s@)
}

/// The list of admitted strings, as a violation shows it.
pub open spec fn choices_text(choices: Seq<Seq<char>>) -> Seq<char> {
    "["@ + text::joined(quoted_all(choices), ", "@) + "]"@
}

/// Each string between quotation marks.
pub open spec fn quoted_all(v: Seq<Seq<char>>) -> Seq<Seq<char>> {
    v.map_values(|s: Seq<char>| platform::quoted(s))
}

/// What a member of the arguments violates.
pub open spec fn member_violations(
    name: Seq<char>,
    value: Value,
    declared: Option<tool::PropertyView>,
) -> Seq<Seq<char>> {
    match declared {
        None => seq!["unknown property '"@ + name + "'"@],
        Some(def) => {
            let typed = if type_admits(value, def.prop_type) {
                Seq::empty()
            } else {
                seq![
                    "property '"@ + name + "' must be a "@ + def.prop_type
                        + " but the model provided "@ + tool::debug_text(value),
                ]
            };
            let chosen = if def.choices.len() == 0 || is_choice(value, def.choices) {
                Seq::empty()
            } else {
                seq!["property '"@ + name + "' must be one of "@ + choices_text(def.choices)]
            };
            typed + chosen
        },
    }
}

/// What the required names of the parameters find missing.
pub open spec fn missing_violations(
    object: Seq<(String, Value)>,
    required: Seq<Seq<char>>,
) -> Seq<Seq<char>>
    decreases required.len(),
{
    if required.len() == 0 {
        Seq::empty()
    } else {
        let before = missing_violations(object, required.drop_last());
        if tool::member(object, required.last()) is Some {
            before
        } else {
            before.push("missing required property '"@ + required.last() + "'"@)
        }
    }
}

/// What the members of the arguments violate, in their order.
pub open spec fn members_violations(
    object: Seq<(String, Value)>,
    properties: Seq<(Seq<char>, tool::PropertyView)>,
) -> Seq<Seq<char>>
    decreases object.len(),
{
    if object.len() == 0 {
        Seq::empty()
    } else {
        let last = object.last();
        members_violations(object.drop_last(), properties) + member_violations(
            last.0@,
            last.1,
            tool::property(properties, last.0@),
        )
    }
}

/// Everything that the arguments violate: first the missing names, then the
/// members.
pub open spec fn violations(object: Seq<(String, Value)>, params: tool::ParamsView) -> Seq<
    Seq<char>,
> {
    missing_violations(object, params.required) + members_violations(object, params.properties)
}

fn among(value: &Value, choices: &Vec<String>) -> (r: bool)
    ensures
        r == is_choice(*value, text::texts(choices@)),
{
    match value {
        Value::String(s) => {
            let mut i: usize = 0;
            let ghost views = text::texts(choices@);
            while i < choices.len()
                invariant
                    i <= choices@.len(),
                    *value == Value::String(*s),
                    views == text::texts(choices@),
                    forall|j: int| 0 <= j < i ==> #[trigger] views[j] != s@,
                decreases choices@.len() - i,
            {
                assert(views[i as int] == choices@[i as int]@);
                if text::str_eq(choices[i].as_str(), s.as_str()) {
                    return true;
                }
                i = i + 1;
            }
            false
        },
        _ => false,
    }
}

fn show_choices(choices: &Vec<String>) -> (r: String)
    ensures
        r@ == choices_text(text::texts(choices@)),
{
    let mut parts: Vec<String> = Vec::new();
    let mut i: usize = 0;
    while i < choices.len()
        invariant
            i <= choices@.len(),
            parts@.len() == i,
            forall|j: int| 0 <= j < i ==> (#[trigger] parts@[j])@ == platform::quoted(choices@[j]@),
        decreases choices@.len() - i,
    {
        parts.push(platform::quote(choices[i].as_str()));
        i = i + 1;
    }
    assert(text::texts(parts@) =~= quoted_all(text::texts(choices@)));
    "[".to_owned().concat(text::join(&parts, ", ").as_str()).concat("]")
}

fn push_text(found: &mut Vec<String>, message: String)
    ensures
        text::texts(final(found)@) == text::texts(old(found)@).push(message@),
{
    let ghost before = text::texts(found@);
    found.push(message);
    assert(text::texts(found@) =~= before.push(message@));
}

fn check_required(object: &Vec<(String, Value)>, required: &Vec<String>) -> (r: Vec<String>)
    ensures
        text::texts(r@) == missing_violations(object@, text::texts(required@)),
{
    let mut found: Vec<String> = Vec::new();
    let mut i: usize = 0;
    let ghost names = text::texts(required@);
    assert(text::texts(found@) =~= missing_violations(object@, names.take(0)));
    while i < required.len()
        invariant
            i <= required@.len(),
            names == text::texts(required@),
            text::texts(found@) == missing_violations(object@, names.take(i as int)),
        decreases required@.len() - i,
    {
        proof {
            let t = names.take(i + 1);
            assert(t.drop_last() =~= names.take(i as int));
            assert(t.last() == required@[i as int]@);
        }
        if tool::find_member(object, required[i].as_str()).is_none() {
            push_text(
                &mut found,
                "missing required property '".to_owned().concat(required[i].as_str()).concat("'"),
            );
        }
        i = i + 1;
    }
    assert(names.take(i as int) =~= names);
    found
}

fn check_member(
    found: &mut Vec<String>,
    name: &String,
    value: &Value,
    properties: &Vec<(String, PropertyDef)>,
)
    ensures
        text::texts(final(found)@) == text::texts(old(found)@) + member_violations(
            name@,
            *value,
            tool::property(tool::property_views(properties@), name@),
        ),
{
    let ghost before = text::texts(found@);
    let ghost declared = tool::property(tool::property_views(properties@), name@);
    match tool::find_property(properties, name.as_str()) {
        None => {
            push_text(found, "unknown property '".to_owned().concat(name.as_str()).concat("'"));
        },
        Some(def) => {
            if !value_matches_type(value, def.prop_type.as_str()) {
                push_text(
                    found,
                    "property '".to_owned().concat(name.as_str()).concat("' must be a ").concat(
                        def.prop_type.as_str(),
                    ).concat(" but the model provided ").concat(
                        tool::show_value(value).as_str(),
                    ),
                );
            }
            if def.choices.len() != 0 && !among(value, &def.choices) {
                push_text(
                    found,
                    "property '".to_owned().concat(name.as_str()).concat(
                        "' must be one of ",
                    ).concat(show_choices(&def.choices).as_str()),
                );
            }
        },
    }
    assert(text::texts(found@) =~= before + member_violations(name@, *value, declared));
}

/// Resolves the arguments of a call against the tool's declared parameters.
/// `parsed` is what reading the model's raw text as JSON gave: a value, or the
/// reader's message. Gives the argument object, or the list of violations.
pub fn parse_tool_args(parsed: Result<Value, String>, params: &ToolParams) -> (r: Result<
    Vec<(String, Value)>,
    Vec<String>,
>)
    ensures
        match parsed {
            Err(e) => r matches Err(v) && text::texts(v@) == seq![
                "arguments are not valid JSON: "@ + e@,
            ],
            Ok(Value::Object(object)) => match r {
                Ok(args) => args == object && violations(object@, params@).len() == 0,
                Err(v) => v@.len() > 0 && text::texts(v@) == violations(object@, params@),
            },
            Ok(_) => r matches Err(v) && text::texts(v@) == seq![
                "arguments must be a JSON object"@,
            ],
        },
{
    let value = match parsed {
        Ok(v) => v,
        Err(e) => {
            let mut found: Vec<String> = Vec::new();
            push_text(
                &mut found,
                "arguments are not valid JSON: ".to_owned().concat(e.as_str()),
            );
            assert(text::texts(found@) =~= seq!["arguments are not valid JSON: "@ + e@]);
            return Err(found);
        },
    };
    let object = match value {
        Value::Object(object) => object,
        _ => {
            let mut found: Vec<String> = Vec::new();
            push_text(&mut found, "arguments must be a JSON object".to_owned());
            assert(text::texts(found@) =~= seq!["arguments must be a JSON object"@]);
            return Err(found);
        },
    };
    let mut found = check_required(&object, &params.required);
    let ghost missing = text::texts(found@);
    let mut i: usize = 0;
    assert(missing + members_violations(object@.take(0), params@.properties) =~= missing);
    while i < object.len()
        invariant
            i <= object@.len(),
            text::texts(found@) == missing + members_violations(
                object@.take(i as int),
                params@.properties,
            ),
        decreases object@.len() - i,
    {
        let ghost before = text::texts(found@);
        check_member(&mut found, &object[i].0, &object[i].1, &params.properties);
        proof {
            let t = object@.take(i + 1);
            assert(t.drop_last() =~= object@.take(i as int));
            assert(t.last() == object@[i as int]);
            assert(missing + members_violations(t, params@.properties) =~= before
                + member_violations(
                t.last().0@,
                t.last().1,
                tool::property(params@.properties, t.last().0@),
            ));
        }
        i = i + 1;
    }
    assert(object@.take(i as int) =~= object@);
    assert(found@.len() == text::texts(found@).len());
    if found.len() == 0 {
        Ok(object)
    } else {
        Err(found)
    }
}

/// Each violation on a line of its own.
pub open spec fn reason_lines(found: Seq<Seq<char>>) -> Seq<Seq<char>> {
    found.map_values(|v: Seq<char>| "- "@ + v)
}

/// The report for the operator when arguments are rejected: provider, model,
/// the model's raw output, and why it does not satisfy the definition.
pub fn rejected_tool_args_report(
    name: &str,
    raw: &str,
    found: &Vec<String>,
    api_url: &str,
    model: &str,
) -> (r: String)
    ensures
        r@ == "tool call '"@ + name@
            + "' rejected: the arguments do not match the tool definition.\nprovider: "@ + api_url@
            + "\nmodel: "@ + model@ + "\nmodel output: "@ + raw@ + "\nreasons:\n"@ + text::joined(
            reason_lines(text::texts(found@)),
            "\n"@,
        ),
{
    let mut lines: Vec<String> = Vec::new();
    let mut i: usize = 0;
    while i < found.len()
        invariant
            i <= found@.len(),
            lines@.len() == i,
            forall|j: int| 0 <= j < i ==> (#[trigger] lines@[j])@ == "- "@ + found@[j]@,
        decreases found@.len() - i,
    {
        lines.push("- ".to_owned().concat(found[i].as_str()));
        i = i + 1;
    }
    assert(text::texts(lines@) =~= reason_lines(text::texts(found@)));
    "tool call '".to_owned().concat(name).concat(
        "' rejected: the arguments do not match the tool definition.\nprovider: ",
    ).concat(api_url).concat("\nmodel: ").concat(model).concat("\nmodel output: ").concat(
        raw,
    ).concat("\nreasons:\n").concat(text::join(&lines, "\n").as_str())
}

/// The feedback for the model when arguments are rejected: the full tool
/// definition, given as text, so that it can correct them. It holds nothing of
/// the operator's report.
pub open spec fn feedback_text(name: Seq<char>, definition: Seq<char>) -> Seq<char> {
    "The arguments you provided for tool '"@ + name
        + "' were rejected because they do not match the tool definition. Use exactly these properties:\n"@
        + definition
}

/// The feedback for the model when arguments are rejected.
pub fn rejected_tool_args_feedback(name: &str, definition: &str) -> (r: String)
    ensures
        r@ == feedback_text(name@, definition@),
{
    "The arguments you provided for tool '".to_owned().concat(name).concat(
        "' were rejected because they do not match the tool definition. Use exactly these properties:\n",
    ).concat(definition)
}

// What is accepted and what is told -----------------------------------------------------

/// Each declared type admits its own values and no others; an integer is a
/// number that is whole.
pub proof fn law_types_admit_their_own_values(value: Value)
    ensures
        type_admits(value, "string"@) <==> value is String,
        type_admits(value, "number"@) <==> value is Number,
        type_admits(value, "integer"@) <==> value is Number && value->Number_0.whole is Some,
        type_admits(value, "boolean"@) <==> value is Bool,
        type_admits(value, "array"@) <==> value is Array,
        type_admits(value, "object"@) <==> value is Object,
        type_admits(value, "null"@) <==> value is Null,
{
    reveal_strlit("string");
    reveal_strlit("number");
    reveal_strlit("integer");
    reveal_strlit("boolean");
    reveal_strlit("array");
    reveal_strlit("object");
    reveal_strlit("null");
    assert("string"@[0] == 's' && "number"@[0] == 'n' && "integer"@[0] == 'i');
    assert("boolean"@[0] == 'b' && "array"@[0] == 'a' && "object"@[0] == 'o');
    assert("null"@.len() != "number"@.len());
    assert("null"@[0] == 'n');
}

/// Arguments are accepted exactly where no required name is missing and every
/// member is declared, of its declared type and, where choices are declared,
/// one of them.
pub proof fn law_arguments_are_accepted_where_they_fit(
    object: Seq<(String, Value)>,
    params: tool::ParamsView,
)
    ensures
        violations(object, params).len() == 0 <==> {
            &&& forall|i: int|
                0 <= i < params.required.len() ==> tool::member(
                    object,
                    #[trigger] params.required[i],
                ) is Some
            &&& forall|i: int|
                #![trigger object[i]]
                0 <= i < object.len() ==> {
                    let declared = tool::property(params.properties, object[i].0@);
                    &&& declared is Some
                    &&& type_admits(object[i].1, declared->Some_0.prop_type)
                    &&& declared->Some_0.choices.len() > 0 ==> object[i].1 is String
                        && declared->Some_0.choices.contains(object[i].1->String_0@)
                }
        },
{
    lemma_nothing_missing(object, params.required);
    lemma_members_fit(object, params.properties);
}

proof fn lemma_nothing_missing(object: Seq<(String, Value)>, required: Seq<Seq<char>>)
    ensures
        missing_violations(object, required).len() == 0 <==> forall|i: int|
            0 <= i < required.len() ==> tool::member(object, #[trigger] required[i]) is Some,
    decreases required.len(),
{
    if required.len() > 0 {
        let fewer = required.drop_last();
        lemma_nothing_missing(object, fewer);
        if missing_violations(object, required).len() == 0 {
            assert forall|i: int| 0 <= i < required.len() implies tool::member(
                object,
                #[trigger] required[i],
            ) is Some by {
                if i < fewer.len() {
                    assert(fewer[i] == required[i]);
                }
            }
        } else if forall|i: int|
            0 <= i < required.len() ==> tool::member(object, #[trigger] required[i]) is Some {
            assert forall|i: int| 0 <= i < fewer.len() implies tool::member(
                object,
                #[trigger] fewer[i],
            ) is Some by {
                assert(fewer[i] == required[i]);
            }
            assert(tool::member(object, required[required.len() - 1]) is Some);
        }
    }
}

spec fn fits(
    member: (String, Value),
    properties: Seq<(Seq<char>, tool::PropertyView)>,
) -> bool {
    let declared = tool::property(properties, member.0@);
    &&& declared is Some
    &&& type_admits(member.1, declared->Some_0.prop_type)
    &&& declared->Some_0.choices.len() > 0 ==> member.1 is String
        && declared->Some_0.choices.contains(member.1->String_0@)
}

proof fn lemma_members_fit(
    object: Seq<(String, Value)>,
    properties: Seq<(Seq<char>, tool::PropertyView)>,
)
    ensures
        members_violations(object, properties).len() == 0 <==> forall|i: int|
            #![trigger object[i]]
            0 <= i < object.len() ==> fits(object[i], properties),
    decreases object.len(),
{
    if object.len() > 0 {
        let fewer = object.drop_last();
        lemma_members_fit(fewer, properties);
        let last = object[object.len() - 1];
        assert(member_violations(
            last.0@,
            last.1,
            tool::property(properties, last.0@),
        ).len() == 0 <==> fits(last, properties));
        if members_violations(object, properties).len() == 0 {
            assert forall|i: int| #![trigger object[i]] 0 <= i < object.len() implies fits(
                object[i],
                properties,
            ) by {
                if i < fewer.len() {
                    assert(fewer[i] == object[i]);
                }
            }
        } else if forall|i: int|
            #![trigger object[i]]
            0 <= i < object.len() ==> fits(object[i], properties) {
            assert forall|i: int| #![trigger fewer[i]] 0 <= i < fewer.len() implies fits(
                fewer[i],
                properties,
            ) by {
                assert(fewer[i] == object[i]);
            }
            assert(fits(object[object.len() - 1], properties));
        }
    }
}

/// Every violation is told, in order: first each missing name, then what each
/// member violates, under the member's name.
pub proof fn law_every_violation_is_told(
    object: Seq<(String, Value)>,
    more: Seq<(String, Value)>,
    required: Seq<Seq<char>>,
    further: Seq<Seq<char>>,
    properties: Seq<(Seq<char>, tool::PropertyView)>,
    name: Seq<char>,
    one: (String, Value),
)
    ensures
        violations(
            object,
            tool::ParamsView { schema_type: name, properties, required },
        ) == missing_violations(object, required) + members_violations(object, properties),
        missing_violations(object, required + further) == missing_violations(object, required)
            + missing_violations(object, further),
        tool::member(object, name) is None ==> missing_violations(object, seq![name]) == seq![
            "missing required property '"@ + name + "'"@,
        ],
        members_violations(object + more, properties) == members_violations(object, properties)
            + members_violations(more, properties),
        tool::property(properties, one.0@) is None ==> members_violations(seq![one], properties)
            == seq!["unknown property '"@ + one.0@ + "'"@],
        tool::property(properties, one.0@) matches Some(def) ==> {
            let told = members_violations(seq![one], properties);
            let wrong_type = "property '"@ + one.0@ + "' must be a "@ + def.prop_type
                + " but the model provided "@ + tool::debug_text(one.1);
            let no_choice = "property '"@ + one.0@ + "' must be one of "@ + choices_text(
                def.choices,
            );
            let typed = type_admits(one.1, def.prop_type);
            let chosen = def.choices.len() == 0 || (one.1 is String && def.choices.contains(
                one.1->String_0@,
            ));
            &&& !typed && chosen ==> told == seq![wrong_type]
            &&& typed && !chosen ==> told == seq![no_choice]
            &&& !typed && !chosen ==> told == seq![wrong_type, no_choice]
        },
{
    lemma_missing_extends(object, required, further);
    lemma_members_extend(object, more, properties);
    reveal_with_fuel(missing_violations, 2);
    reveal_with_fuel(members_violations, 2);
    assert(seq![name].drop_last() =~= Seq::empty());
    assert(seq![one].drop_last() =~= Seq::empty());
    assert(seq![name].last() == name);
    assert(seq![one].last() == one);
    assert(members_violations(seq![one], properties) =~= member_violations(
        one.0@,
        one.1,
        tool::property(properties, one.0@),
    ));
    if tool::member(object, name) is None {
        assert(missing_violations(object, seq![name]) =~= seq![
            "missing required property '"@ + name + "'"@,
        ]);
    }
    match tool::property(properties, one.0@) {
        Some(def) => {
            let wrong_type = "property '"@ + one.0@ + "' must be a "@ + def.prop_type
                + " but the model provided "@ + tool::debug_text(one.1);
            let no_choice = "property '"@ + one.0@ + "' must be one of "@ + choices_text(
                def.choices,
            );
            let told = members_violations(seq![one], properties);
            let typed = type_admits(one.1, def.prop_type);
            let chosen = def.choices.len() == 0 || is_choice(one.1, def.choices);
            if !typed && chosen {
                assert(told =~= seq![wrong_type]);
            } else if typed && !chosen {
                assert(told =~= seq![no_choice]);
            } else if !typed && !chosen {
                assert(told =~= seq![wrong_type, no_choice]);
            }
        },
        None => {},
    }
}

proof fn lemma_missing_extends(
    object: Seq<(String, Value)>,
    first: Seq<Seq<char>>,
    second: Seq<Seq<char>>,
)
    ensures
        missing_violations(object, first + second) == missing_violations(object, first)
            + missing_violations(object, second),
    decreases second.len(),
{
    if second.len() == 0 {
        assert(first + second =~= first);
        assert(missing_violations(object, first) + missing_violations(object, second)
            =~= missing_violations(object, first));
    } else {
        lemma_missing_extends(object, first, second.drop_last());
        assert((first + second).drop_last() =~= first + second.drop_last());
        assert((first + second).last() == second.last());
        assert(missing_violations(object, first + second) =~= missing_violations(object, first)
            + missing_violations(object, second));
    }
}

proof fn lemma_members_extend(
    first: Seq<(String, Value)>,
    second: Seq<(String, Value)>,
    properties: Seq<(Seq<char>, tool::PropertyView)>,
)
    ensures
        members_violations(first + second, properties) == members_violations(first, properties)
            + members_violations(second, properties),
    decreases second.len(),
{
    if second.len() == 0 {
        assert(first + second =~= first);
        assert(members_violations(first, properties) + members_violations(second, properties)
            =~= members_violations(first, properties));
    } else {
        lemma_members_extend(first, second.drop_last(), properties);
        assert((first + second).drop_last() =~= first + second.drop_last());
        assert((first + second).last() == second.last());
        assert(members_violations(first + second, properties) =~= members_violations(
            first,
            properties,
        ) + members_violations(second, properties));
    }
}

/// The feedback holds the name of the tool and, at its end, the whole of its
/// definition.
pub proof fn law_feedback_ends_with_the_definition(name: Seq<char>, definition: Seq<char>)
    ensures
        ({
            let told = feedback_text(name, definition);
            let head = "The arguments you provided for tool '"@;
            &&& told.len() >= head.len() + name.len() + definition.len()
            &&& told.take(head.len() as int) == head
            &&& told.subrange(head.len() as int, (head.len() + name.len()) as int) == name
            &&& told.skip(told.len() - definition.len()) == definition
        }),
{
    let told = feedback_text(name, definition);
    let head = "The arguments you provided for tool '"@;
    assert(told.take(head.len() as int) =~= head);
    assert(told.subrange(head.len() as int, (head.len() + name.len()) as int) =~= name);
    assert(told.skip(told.len() - definition.len()) =~= definition);
}

/// Every reason is reported whole, on a line of its own, and choices are shown
/// between brackets, each between quotation marks.
pub proof fn law_reasons_are_reported_whole(found: Seq<Seq<char>>, i: int)
    ensures
        reason_lines(found).len() == found.len(),
        0 <= i < found.len() ==> reason_lines(found)[i] == "- "@ + found[i],
        choices_text(found) == "["@ + text::joined(quoted_all(found), ", "@) + "]"@,
        quoted_all(found).len() == found.len(),
        0 <= i < found.len() ==> quoted_all(found)[i] == platform::quoted(found[i]),
{
}

/// Arguments that are accepted are handed on unchanged, and they are accepted
/// exactly where they are an object without violations; what is rejected is
/// rejected with reasons.
pub proof fn law_accepted_arguments_are_unchanged(
    parsed: Result<Value, String>,
    params: ToolParams,
    r: Result<Vec<(String, Value)>, Vec<String>>,
)
    requires
        call_ensures(parse_tool_args, (parsed, &params), r),
    ensures
        r is Ok <==> parsed is Ok && parsed->Ok_0 is Object && violations(
            parsed->Ok_0->Object_0@,
            params@,
        ).len() == 0,
        r matches Ok(args) ==> args == parsed->Ok_0->Object_0,
        r matches Err(found) ==> found@.len() > 0,
        parsed matches Err(e) ==> r is Err && text::texts(r->Err_0@) == seq![
            "arguments are not valid JSON: "@ + e@,
        ],
{
    match r {
        Err(found) => {
            assert(text::texts(found@).len() == found@.len());
        },
        _ => {},
    }
}

/// The report holds the name of the tool, the provider, the model and the whole
/// of what the model gave, and ends with every reason.
pub proof fn law_reports_hold_the_models_output(
    name: &str,
    raw: &str,
    found: Vec<String>,
    api_url: &str,
    model: &str,
    r: String,
)
    requires
        call_ensures(rejected_tool_args_report, (name, raw, &found, api_url, model), r),
    ensures
        ({
            let reasons = text::joined(reason_lines(text::texts(found@)), "\n"@);
            let head = "tool call '"@ + name@
                + "' rejected: the arguments do not match the tool definition.\nprovider: "@
                + api_url@ + "\nmodel: "@ + model@ + "\nmodel output: "@;
            &&& r@.len() >= head.len() + raw@.len() + reasons.len()
            &&& r@.take(head.len() as int) == head
            &&& r@.subrange(head.len() as int, (head.len() + raw@.len()) as int) == raw@
            &&& r@.skip(r@.len() - reasons.len()) == reasons
        }),
{
    let reasons = text::joined(reason_lines(text::texts(found@)), "\n"@);
    let head = "tool call '"@ + name@
        + "' rejected: the arguments do not match the tool definition.\nprovider: "@ + api_url@
        + "\nmodel: "@ + model@ + "\nmodel output: "@;
    assert(r@ == head + raw@ + "\nreasons:\n"@ + reasons);
    assert(r@.take(head.len() as int) =~= head);
    assert(r@.subrange(head.len() as int, (head.len() + raw@.len()) as int) =~= raw@);
    assert(r@.skip(r@.len() - reasons.len()) =~= reasons);
}

} // verus!
