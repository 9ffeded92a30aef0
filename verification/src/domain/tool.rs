//! Tools: the values they are called with, their declared parameters and the
//! registry that holds them.

use vstd::prelude::*;
use vstd::string::*;

use crate::platform;
use crate::text;

verus! {

/// A JSON number, as far as tools look at it.
#[derive(Debug, PartialEq)]
pub struct Number {
    /// The value, where it is a whole number in the range of `i64`.
    pub whole: Option<i64>,
    /// The number as JSON text.
    pub text: String,
    /// The number as diagnostics show it.
    pub debug: String,
}

/// A JSON-like value. An object lists its members; of members with one name the
/// first counts.
#[derive(Debug, PartialEq)]
pub enum Value {
    Null,
    Bool(bool),
    Number(Number),
    String(String),
    Array(Vec<Value>),
    Object(Vec<(String, Value)>),
}

impl Value {
    /// The string that the value is.
    pub fn as_str(&self) -> (r: Option<&str>)
        ensures
            text::opt_str(r) == (match *self {
                Value::String(s) => Some(s@),
                _ => None,
            }),
    {
        match self {
            Value::String(s) => Some(s.as_str()),
            _ => None,
        }
    }

    /// The value as an integer, when it is a whole number.
    pub fn as_i64(&self) -> (r: Option<i64>)
        ensures
            r == (match *self {
                Value::Number(n) => n.whole,
                _ => None,
            }),
    {
        match self {
            Value::Number(n) => n.whole,
            _ => None,
        }
    }

    /// The members of the object that the value is.
    pub fn as_object(&self) -> (r: Option<&Vec<(String, Value)>>)
        ensures
            match *self {
                Value::Object(m) => r == Some(&m),
                _ => r is None,
            },
    {
        match self {
            Value::Object(map) => Some(map),
            _ => None,
        }
    }

    pub fn is_null(&self) -> (r: bool)
        ensures
            r == (*self is Null),
    {
        matches!(self, Value::Null)
    }

    pub fn is_bool(&self) -> (r: bool)
        ensures
            r == (*self is Bool),
    {
        matches!(self, Value::Bool(_))
    }

    pub fn is_number(&self) -> (r: bool)
        ensures
            r == (*self is Number),
    {
        matches!(self, Value::Number(_))
    }

    pub fn is_string(&self) -> (r: bool)
        ensures
            r == (*self is String),
    {
        matches!(self, Value::String(_))
    }

    pub fn is_array(&self) -> (r: bool)
        ensures
            r == (*self is Array),
    {
        matches!(self, Value::Array(_))
    }

    pub fn is_object(&self) -> (r: bool)
        ensures
            r == (*self is Object),
    {
        matches!(self, Value::Object(_))
    }
}

/// The value as diagnostics show it.
pub open spec fn debug_text(v: Value) -> Seq<char>
    decreases v,
{
    match v {
        Value::Null => "Null"@,
        Value::Bool(b) => if b {
            "Bool(true)"@
        } else {
            "Bool(false)"@
        },
        Value::Number(n) => "Number("@ + n.debug@ + ")"@,
        Value::String(s) => "String("@ + platform::quoted(s@) + ")"@,
        Value::Array(a) => "Array(["@ + text::joined(debug_elements(a@), ", "@) + "])"@,
        Value::Object(m) => "Object({"@ + text::joined(debug_members(m@), ", "@) + "})"@,
    }
}

/// The elements of an array as diagnostics show them.
pub open spec fn debug_elements(a: Seq<Value>) -> Seq<Seq<char>>
    decreases a,
{
    if a.len() == 0 {
        Seq::empty()
    } else {
        debug_elements(a.subrange(0, a.len() - 1)).push(debug_text(a[a.len() - 1]))
    }
}

/// The members of an object as diagnostics show them.
pub open spec fn debug_members(m: Seq<(String, Value)>) -> Seq<Seq<char>>
    decreases m,
{
    if m.len() == 0 {
        Seq::empty()
    } else {
        let last = m[m.len() - 1];
        debug_members(m.subrange(0, m.len() - 1)).push(
            platform::quoted(last.0@) + ": "@ + debug_text(last.1),
        )
    }
}

/// The value as diagnostics show it.
pub fn show_value(v: &Value) -> (r: String)
    ensures
        r@ == debug_text(*v),
    decreases *v,
{
    match v {
        Value::Null => "Null".to_owned(),
        Value::Bool(b) => if *b {
            "Bool(true)".to_owned()
        } else {
            "Bool(false)".to_owned()
        },
        Value::Number(n) => "Number(".to_owned().concat(n.debug.as_str()).concat(")"),
        Value::String(s) => "String(".to_owned().concat(
            platform::quote(s.as_str()).as_str(),
        ).concat(")"),
        Value::Array(a) => {
            let mut parts: Vec<String> = Vec::new();
            let mut i: usize = 0;
            assert(text::texts(parts@) =~= debug_elements(a@.subrange(0, 0)));
            while i < a.len()
                invariant
                    i <= a@.len(),
                    *v == Value::Array(*a),
                    text::texts(parts@) == debug_elements(a@.subrange(0, i as int)),
                decreases a@.len() - i,
            {
                let ghost before = text::texts(parts@);
                proof {
                    assert(decreases_to!(*v => (*v)->Array_0));
                    assert(decreases_to!(*a => a@));
                    assert(decreases_to!(a@ => a@[i as int]));
                }
                let shown = show_value(&a[i]);
                let ghost next = a@.subrange(0, i + 1);
                proof {
                    assert(next.subrange(0, next.len() - 1) =~= a@.subrange(0, i as int));
                }
                parts.push(shown);
                assert(text::texts(parts@) =~= before.push(shown@));
                i = i + 1;
            }
            assert(a@.subrange(0, i as int) =~= a@);
            "Array([".to_owned().concat(text::join(&parts, ", ").as_str()).concat("])")
        },
        Value::Object(m) => {
            let mut parts: Vec<String> = Vec::new();
            let mut i: usize = 0;
            assert(text::texts(parts@) =~= debug_members(m@.subrange(0, 0)));
            while i < m.len()
                invariant
                    i <= m@.len(),
                    *v == Value::Object(*m),
                    text::texts(parts@) == debug_members(m@.subrange(0, i as int)),
                decreases m@.len() - i,
            {
                let ghost before = text::texts(parts@);
                proof {
                    assert(decreases_to!(*v => (*v)->Object_0));
                    assert(decreases_to!(*m => m@));
                    assert(decreases_to!(m@ => m@[i as int]));
                    assert(decreases_to!(m@[i as int] => m@[i as int].1));
                }
                let shown = platform::quote(m[i].0.as_str()).concat(": ").concat(
                    show_value(&m[i].1).as_str(),
                );
                let ghost next = m@.subrange(0, i + 1);
                proof {
                    assert(next.subrange(0, next.len() - 1) =~= m@.subrange(0, i as int));
                }
                parts.push(shown);
                assert(text::texts(parts@) =~= before.push(shown@));
                i = i + 1;
            }
            assert(m@.subrange(0, i as int) =~= m@);
            "Object({".to_owned().concat(text::join(&parts, ", ").as_str()).concat("})")
        },
    }
}

// Members by name ---------------------------------------------------------

/// The value of the member called `name`, the first one where several are.
pub open spec fn member(members: Seq<(String, Value)>, name: Seq<char>) -> Option<Value>
    decreases members.len(),
{
    if members.len() == 0 {
        None
    } else if members[0].0@ == name {
        Some(members[0].1)
    } else {
        member(members.drop_first(), name)
    }
}

/// The value of the member called `name`.
pub fn find_member<'a>(members: &'a Vec<(String, Value)>, name: &str) -> (r: Option<&'a Value>)
    ensures
        match r {
            Some(v) => member(members@, name@) == Some(*v),
            None => member(members@, name@) is None,
        },
{
    let mut i: usize = 0;
    assert(members@.skip(0) =~= members@);
    while i < members.len()
        invariant
            i <= members@.len(),
            member(members@, name@) == member(members@.skip(i as int), name@),
        decreases members@.len() - i,
    {
        assert(members@.skip(i as int)[0] == members@[i as int]);
        if text::str_eq(members[i].0.as_str(), name) {
            return Some(&members[i].1);
        }
        assert(members@.skip(i as int).drop_first() =~= members@.skip(i + 1));
        i = i + 1;
    }
    None
}

// Parameters ---------------------------------------------------------------

/// One declared property of a tool's parameters. `choices` lists the admitted
/// strings; an empty list admits every value.
#[derive(Debug)]
pub struct PropertyDef {
    pub prop_type: String,
    pub description: String,
    pub choices: Vec<String>,
}

/// The view of a [`PropertyDef`].
pub struct PropertyView {
    pub prop_type: Seq<char>,
    pub description: Seq<char>,
    pub choices: Seq<Seq<char>>,
}

impl View for PropertyDef {
    type V = PropertyView;

    open spec fn view(&self) -> PropertyView {
        PropertyView {
            prop_type: self.prop_type@,
            description: self.description@,
            choices: text::texts(self.choices@),
        }
    }
}

/// Copies a list of strings.
pub fn copy_texts(v: &Vec<String>) -> (r: Vec<String>)
    ensures
        r@ == v@,
{
    let mut r: Vec<String> = Vec::new();
    let mut i: usize = 0;
    while i < v.len()
        invariant
            i <= v@.len(),
            r@ == v@.take(i as int),
        decreases v@.len() - i,
    {
        r.push(v[i].clone());
        i = i + 1;
        assert(r@ =~= v@.take(i as int));
    }
    assert(v@.take(i as int) =~= v@);
    r
}

impl Clone for PropertyDef {
    fn clone(&self) -> (r: Self)
        ensures
            r@ == self@,
    {
        PropertyDef {
            prop_type: self.prop_type.clone(),
            description: self.description.clone(),
            choices: copy_texts(&self.choices),
        }
    }
}

impl PropertyDef {
    /// A string property that admits every string.
    pub fn string(description: &str) -> (r: Self)
        ensures
            r@ == string_property(description@),
    {
        let choices: Vec<String> = Vec::new();
        assert(text::texts(choices@) =~= Seq::empty());
        PropertyDef {
            prop_type: "string".to_owned(),
            description: description.to_owned(),
            choices,
        }
    }

    /// An integer property.
    pub fn integer(description: &str) -> (r: Self)
        ensures
            r@ == integer_property(description@),
    {
        let choices: Vec<String> = Vec::new();
        assert(text::texts(choices@) =~= Seq::empty());
        PropertyDef {
            prop_type: "integer".to_owned(),
            description: description.to_owned(),
            choices,
        }
    }
}

/// The declared parameters of a tool, in the shape of a JSON Schema. Of
/// properties with one name the first counts.
#[derive(Debug)]
pub struct ToolParams {
    pub schema_type: String,
    pub properties: Vec<(String, PropertyDef)>,
    pub required: Vec<String>,
}

/// The view of [`ToolParams`].
pub struct ParamsView {
    pub schema_type: Seq<char>,
    pub properties: Seq<(Seq<char>, PropertyView)>,
    pub required: Seq<Seq<char>>,
}

/// The views of a list of named properties.
pub open spec fn property_views(v: Seq<(String, PropertyDef)>) -> Seq<(Seq<char>, PropertyView)> {
    v.map_values(|p: (String, PropertyDef)| (p.0@, p.1@))
}

impl View for ToolParams {
    type V = ParamsView;

    open spec fn view(&self) -> ParamsView {
        ParamsView {
            schema_type: self.schema_type@,
            properties: property_views(self.properties@),
            required: text::texts(self.required@),
        }
    }
}

impl ToolParams {
    /// The parameters of a tool that takes an object.
    pub fn object(properties: Vec<(String, PropertyDef)>, required: Vec<String>) -> (r: Self)
        ensures
            r.schema_type@ == "object"@,
            r.properties == properties,
            r.required == required,
    {
        ToolParams { schema_type: "object".to_owned(), properties, required }
    }
}

impl ToolParams {
    /// The parameters of a tool that takes nothing.
    pub fn none() -> (r: Self)
        ensures
            r@ == no_params(),
    {
        let properties: Vec<(String, PropertyDef)> = Vec::new();
        let required: Vec<String> = Vec::new();
        assert(property_views(properties@) =~= Seq::empty());
        assert(text::texts(required@) =~= Seq::empty());
        ToolParams::object(properties, required)
    }

    /// The parameters with one more required property.
    pub fn needing(self, name: &str, def: PropertyDef) -> (r: Self)
        ensures
            r@ == needing(self@, name@, def@),
    {
        let mut r = self.taking(name, def);
        let ghost before = text::texts(r.required@);
        r.required.push(name.to_owned());
        assert(text::texts(r.required@) =~= before.push(name@));
        r
    }

    /// The parameters with one more optional property.
    pub fn taking(self, name: &str, def: PropertyDef) -> (r: Self)
        ensures
            r@ == taking(self@, name@, def@),
    {
        let mut r = self;
        let ghost before = property_views(r.properties@);
        let ghost shown = def@;
        r.properties.push((name.to_owned(), def));
        assert(property_views(r.properties@) =~= before.push((name@, shown)));
        r
    }
}

/// The parameters of a tool that takes nothing.
pub open spec fn no_params() -> ParamsView {
    ParamsView { schema_type: "object"@, properties: Seq::empty(), required: Seq::empty() }
}

/// The parameters with one more optional property.
pub open spec fn taking(params: ParamsView, name: Seq<char>, def: PropertyView) -> ParamsView {
    ParamsView { properties: params.properties.push((name, def)), ..params }
}

/// The parameters with one more required property.
pub open spec fn needing(params: ParamsView, name: Seq<char>, def: PropertyView) -> ParamsView {
    ParamsView { required: params.required.push(name), ..taking(params, name, def) }
}

/// A string property that admits every string.
pub open spec fn string_property(description: Seq<char>) -> PropertyView {
    PropertyView { prop_type: "string"@, description, choices: Seq::empty() }
}

/// An integer property.
pub open spec fn integer_property(description: Seq<char>) -> PropertyView {
    PropertyView { prop_type: "integer"@, description, choices: Seq::empty() }
}

impl Clone for ToolParams {
    fn clone(&self) -> (r: Self)
        ensures
            r@ == self@,
    {
        let mut properties: Vec<(String, PropertyDef)> = Vec::new();
        let mut i: usize = 0;
        while i < self.properties.len()
            invariant
                i <= self.properties@.len(),
                properties@.len() == i,
                forall|j: int|
                    0 <= j < i ==> (properties@[j].0@, properties@[j].1@) == (
                        self.properties@[j].0@,
                        self.properties@[j].1@,
                    ),
            decreases self.properties@.len() - i,
        {
            let p = &self.properties[i];
            properties.push((p.0.clone(), p.1.clone()));
            i = i + 1;
        }
        let r = ToolParams {
            schema_type: self.schema_type.clone(),
            properties,
            required: copy_texts(&self.required),
        };
        assert(property_views(r.properties@) =~= property_views(self.properties@));
        r
    }
}

/// The declaration of the property called `name`, the first one where several
/// are.
pub open spec fn property(
    properties: Seq<(Seq<char>, PropertyView)>,
    name: Seq<char>,
) -> Option<PropertyView>
    decreases properties.len(),
{
    if properties.len() == 0 {
        None
    } else if properties[0].0 == name {
        Some(properties[0].1)
    } else {
        property(properties.drop_first(), name)
    }
}

/// The declaration of the property called `name`.
pub fn find_property<'a>(properties: &'a Vec<(String, PropertyDef)>, name: &str) -> (r: Option<
    &'a PropertyDef,
>)
    ensures
        match r {
            Some(p) => property(property_views(properties@), name@) == Some(p@),
            None => property(property_views(properties@), name@) is None,
        },
{
    let mut i: usize = 0;
    let ghost views = property_views(properties@);
    assert(views.skip(0) =~= views);
    while i < properties.len()
        invariant
            i <= properties@.len(),
            views == property_views(properties@),
            property(views, name@) == property(views.skip(i as int), name@),
        decreases properties@.len() - i,
    {
        let ghost p = properties@[i as int];
        assert(views.skip(i as int)[0] == (p.0@, p.1@));
        if text::str_eq(properties[i].0.as_str(), name) {
            return Some(&properties[i].1);
        }
        assert(views.skip(i as int).drop_first() =~= views.skip(i + 1));
        i = i + 1;
    }
    None
}

// Tools and their registry ---------------------------------------------------

/// A capability that the model can call. What it declares of itself does not
/// change.
pub trait Tool: Sized {
    spec fn tool_name(&self) -> Seq<char>;

    spec fn tool_description(&self) -> Seq<char>;

    spec fn tool_parameters(&self) -> ParamsView;

    fn name(&self) -> (r: &str)
        ensures
            r@ == self.tool_name(),
    ;

    fn description(&self) -> (r: &str)
        ensures
            r@ == self.tool_description(),
    ;

    fn parameters(&self) -> (r: ToolParams)
        ensures
            r@ == self.tool_parameters(),
    ;
}

/// A tool that is declared by its values.
#[derive(Debug)]
pub struct DeclaredTool {
    pub name: String,
    pub description: String,
    pub parameters: ToolParams,
}

impl DeclaredTool {
    pub fn new(name: &str, description: &str, parameters: ToolParams) -> (r: Self)
        ensures
            r.name@ == name@,
            r.description@ == description@,
            r.parameters == parameters,
    {
        DeclaredTool { name: name.to_owned(), description: description.to_owned(), parameters }
    }
}

impl Tool for DeclaredTool {
    open spec fn tool_name(&self) -> Seq<char> {
        self.name@
    }

    open spec fn tool_description(&self) -> Seq<char> {
        self.description@
    }

    open spec fn tool_parameters(&self) -> ParamsView {
        self.parameters@
    }

    fn name(&self) -> (r: &str) {
        self.name.as_str()
    }

    fn description(&self) -> (r: &str) {
        self.description.as_str()
    }

    fn parameters(&self) -> (r: ToolParams) {
        self.parameters.clone()
    }
}

/// The tools in strict order of their names.
pub open spec fn in_name_order<T: Tool>(tools: Seq<T>) -> bool {
    forall|i: int, j: int|
        0 <= i < j < tools.len() ==> text::precedes(
            #[trigger] tools[i].tool_name(),
            #[trigger] tools[j].tool_name(),
        )
}

/// Whether one of the tools has that name.
pub open spec fn named<T: Tool>(tools: Seq<T>, name: Seq<char>) -> bool {
    exists|i: int| 0 <= i < tools.len() && #[trigger] tools[i].tool_name() == name
}

/// An index of a tool of that name.
pub open spec fn index_named<T: Tool>(tools: Seq<T>, name: Seq<char>) -> int {
    choose|i: int| 0 <= i < tools.len() && #[trigger] tools[i].tool_name() == name
}

/// The tools by name.
pub open spec fn by_name<T: Tool>(tools: Seq<T>) -> Map<Seq<char>, T> {
    Map::new(
        |name: Seq<char>| named(tools, name),
        |name: Seq<char>| tools[index_named(tools, name)],
    )
}

proof fn lemma_by_name<T: Tool>(tools: Seq<T>, i: int)
    requires
        in_name_order(tools),
        0 <= i < tools.len(),
    ensures
        by_name(tools).dom().contains(tools[i].tool_name()),
        by_name(tools)[tools[i].tool_name()] == tools[i],
{
    let name = tools[i].tool_name();
    assert(named(tools, name));
    let k = index_named(tools, name);
    assert(k == i) by {
        text::lemma_precedes_total(name, name);
        if k < i {
            assert(text::precedes(tools[k].tool_name(), tools[i].tool_name()));
        } else if i < k {
            assert(text::precedes(tools[i].tool_name(), tools[k].tool_name()));
        }
    }
}

/// A registry of tools, by name. Its listing is in the order of names.
pub struct ToolRegistry<T: Tool> {
    tools: Vec<T>,
}

impl<T: Tool> View for ToolRegistry<T> {
    type V = Map<Seq<char>, T>;

    closed spec fn view(&self) -> Map<Seq<char>, T> {
        by_name(self.tools@)
    }
}

impl<T: Tool> ToolRegistry<T> {
    /// The registry is well formed: its tools stand in the order of names.
    pub closed spec fn wf(&self) -> bool {
        in_name_order(self.tools@)
    }

    /// The tools in the order in which `list` gives them.
    pub closed spec fn listing(&self) -> Seq<T> {
        self.tools@
    }

    /// An empty registry.
    pub fn new() -> (r: Self)
        ensures
            r.wf(),
            r@ == Map::<Seq<char>, T>::empty(),
    {
        let r = ToolRegistry { tools: Vec::new() };
        assert(r@ =~= Map::<Seq<char>, T>::empty());
        r
    }

    /// The index of the first tool whose name does not come before `name`.
    fn position(&self, name: &str) -> (r: usize)
        requires
            self.wf(),
        ensures
            r <= self.tools@.len(),
            forall|i: int|
                0 <= i < r ==> text::precedes(#[trigger] self.tools@[i].tool_name(), name@),
            forall|i: int|
                r <= i < self.tools@.len() ==> !text::precedes(
                    #[trigger] self.tools@[i].tool_name(),
                    name@,
                ),
    {
        let mut k: usize = 0;
        while k < self.tools.len() && text::comes_before(self.tools[k].name(), name)
            invariant
                k <= self.tools@.len(),
                forall|i: int|
                    0 <= i < k ==> text::precedes(#[trigger] self.tools@[i].tool_name(), name@),
            decreases self.tools@.len() - k,
        {
            k = k + 1;
        }
        proof {
            assert forall|i: int| k <= i < self.tools@.len() implies !text::precedes(
                #[trigger] self.tools@[i].tool_name(),
                name@,
            ) by {
                if k < i && text::precedes(self.tools@[i].tool_name(), name@) {
                    text::lemma_precedes_transitive(
                        self.tools@[k as int].tool_name(),
                        self.tools@[i].tool_name(),
                        name@,
                    );
                }
            }
        }
        k
    }

    /// Registers a tool. Fails when a tool with the same name is already
    /// registered: a duplicate would silently shadow the earlier one.
    pub fn register(&mut self, tool: T) -> (r: Result<(), String>)
        requires
            old(self).wf(),
        ensures
            final(self).wf(),
            match r {
                Ok(()) => {
                    &&& !old(self)@.dom().contains(tool.tool_name())
                    &&& final(self)@ == old(self)@.insert(tool.tool_name(), tool)
                },
                Err(e) => {
                    &&& old(self)@.dom().contains(tool.tool_name())
                    &&& final(self)@ == old(self)@
                    &&& e@ == duplicate_tool_text(tool.tool_name())
                },
            },
    {
        let k = self.position(tool.name());
        let ghost name = tool.tool_name();
        let ghost before = self.tools@;
        if k < self.tools.len() && text::str_eq(self.tools[k].name(), tool.name()) {
            proof {
                lemma_by_name(before, k as int);
            }
            return Err(
                "duplicate tool name '".to_owned().concat(tool.name()).concat(
                    "': a tool with this name is already registered; refusing to start with conflicting tools",
                ),
            );
        }
        proof {
            lemma_absent(before, name, k as int);
        }
        self.tools.insert(k, tool);
        proof {
            lemma_inserted(before, tool, k as int);
        }
        Ok(())
    }

    /// Removes the tool of that name, where there is one.
    pub fn unregister(&mut self, name: &str)
        requires
            old(self).wf(),
        ensures
            final(self).wf(),
            final(self)@ == old(self)@.remove(name@),
    {
        let k = self.position(name);
        let ghost before = self.tools@;
        if k < self.tools.len() && text::str_eq(self.tools[k].name(), name) {
            self.tools.remove(k);
            proof {
                lemma_removed(before, k as int);
            }
        } else {
            proof {
                lemma_absent(before, name@, k as int);
                assert(by_name(before).remove(name@) =~= by_name(before));
            }
        }
    }

    /// The tool of that name.
    pub fn get(&self, name: &str) -> (r: Option<&T>)
        requires
            self.wf(),
        ensures
            match r {
                Some(t) => self@.dom().contains(name@) && *t == self@[name@],
                None => !self@.dom().contains(name@),
            },
    {
        let k = self.position(name);
        if k < self.tools.len() && text::str_eq(self.tools[k].name(), name) {
            proof {
                lemma_by_name(self.tools@, k as int);
            }
            Some(&self.tools[k])
        } else {
            proof {
                lemma_absent(self.tools@, name@, k as int);
            }
            None
        }
    }

    /// Every tool once, in the order of names.
    pub fn list(&self) -> (r: &Vec<T>)
        requires
            self.wf(),
        ensures
            r@ == self.listing(),
            in_name_order(r@),
            by_name(r@) == self@,
    {
        &self.tools
    }
}

impl<T: Tool> Default for ToolRegistry<T> {
    fn default() -> (r: Self)
        ensures
            r.wf(),
            r@ == Map::<Seq<char>, T>::empty(),
    {
        ToolRegistry::new()
    }
}

/// The message of a refused registration.
pub open spec fn duplicate_tool_text(name: Seq<char>) -> Seq<char> {
    "duplicate tool name '"@ + name
        + "': a tool with this name is already registered; refusing to start with conflicting tools"@
}

proof fn lemma_absent<T: Tool>(tools: Seq<T>, name: Seq<char>, k: int)
    requires
        in_name_order(tools),
        0 <= k <= tools.len(),
        forall|i: int| 0 <= i < k ==> text::precedes(#[trigger] tools[i].tool_name(), name),
        k < tools.len() ==> !text::precedes(tools[k].tool_name(), name) && tools[k].tool_name()
            != name,
    ensures
        !by_name(tools).dom().contains(name),
        forall|i: int|
            k <= i < tools.len() ==> text::precedes(name, #[trigger] tools[i].tool_name()),
{
    text::lemma_precedes_total(name, name);
    assert forall|i: int| k <= i < tools.len() implies text::precedes(
        name,
        #[trigger] tools[i].tool_name(),
    ) by {
        text::lemma_precedes_total(tools[k].tool_name(), name);
        if k < i {
            text::lemma_precedes_transitive(name, tools[k].tool_name(), tools[i].tool_name());
        }
    }
}

proof fn lemma_inserted<T: Tool>(before: Seq<T>, tool: T, k: int)
    requires
        in_name_order(before),
        0 <= k <= before.len(),
        forall|i: int|
            0 <= i < k ==> text::precedes(#[trigger] before[i].tool_name(), tool.tool_name()),
        forall|i: int|
            k <= i < before.len() ==> text::precedes(
                tool.tool_name(),
                #[trigger] before[i].tool_name(),
            ),
    ensures
        in_name_order(before.insert(k, tool)),
        by_name(before.insert(k, tool)) == by_name(before).insert(tool.tool_name(), tool),
{
    let after = before.insert(k, tool);
    let name = tool.tool_name();
    assert(after[k] == tool);
    assert forall|i: int, j: int| 0 <= i < j < after.len() implies text::precedes(
        #[trigger] after[i].tool_name(),
        #[trigger] after[j].tool_name(),
    ) by {
        let a = if i < k { i } else { i - 1 };
        let b = if j < k { j } else { j - 1 };
        if i != k {
            assert(after[i] == before[a]);
        }
        if j != k {
            assert(after[j] == before[b]);
        }
    }
    lemma_by_name(after, k);
    assert forall|n: Seq<char>| n != name && #[trigger] named(before, n) implies named(after, n)
        && by_name(after)[n] == by_name(before)[n] by {
        let i = choose|i: int| 0 <= i < before.len() && #[trigger] before[i].tool_name() == n;
        let a = if i < k { i } else { i + 1 };
        assert(after[a] == before[i]);
        lemma_by_name(before, i);
        lemma_by_name(after, a);
    }
    assert forall|n: Seq<char>| n != name && #[trigger] named(after, n) implies named(before, n) by {
        let a = choose|i: int| 0 <= i < after.len() && #[trigger] after[i].tool_name() == n;
        let i = if a < k { a } else { a - 1 };
        assert(after[a] == before[i]);
    }
    assert(by_name(after) =~= by_name(before).insert(name, tool));
}

proof fn lemma_removed<T: Tool>(before: Seq<T>, k: int)
    requires
        in_name_order(before),
        0 <= k < before.len(),
    ensures
        in_name_order(before.remove(k)),
        by_name(before.remove(k)) == by_name(before).remove(before[k].tool_name()),
{
    let after = before.remove(k);
    let name = before[k].tool_name();
    assert forall|i: int, j: int| 0 <= i < j < after.len() implies text::precedes(
        #[trigger] after[i].tool_name(),
        #[trigger] after[j].tool_name(),
    ) by {
        let a = if i < k { i } else { i + 1 };
        let b = if j < k { j } else { j + 1 };
        assert(after[i] == before[a]);
        assert(after[j] == before[b]);
    }
    assert forall|n: Seq<char>| n != name && #[trigger] named(before, n) implies named(after, n)
        && by_name(after)[n] == by_name(before)[n] by {
        let i = choose|i: int| 0 <= i < before.len() && #[trigger] before[i].tool_name() == n;
        let a = if i < k { i } else { i - 1 };
        assert(after[a] == before[i]);
        lemma_by_name(before, i);
        lemma_by_name(after, a);
    }
    assert forall|n: Seq<char>| #[trigger] named(after, n) implies n != name && named(before, n) by {
        let a = choose|i: int| 0 <= i < after.len() && #[trigger] after[i].tool_name() == n;
        let i = if a < k { a } else { a + 1 };
        assert(after[a] == before[i]);
        text::lemma_precedes_total(before[i].tool_name(), name);
        text::lemma_precedes_total(name, before[i].tool_name());
        if i < k {
            assert(text::precedes(before[i].tool_name(), before[k].tool_name()));
        } else {
            assert(text::precedes(before[k].tool_name(), before[i].tool_name()));
        }
    }
    assert(by_name(after) =~= by_name(before).remove(name));
}

proof fn lemma_same_listing<T: Tool>(a: Seq<T>, b: Seq<T>)
    requires
        in_name_order(a),
        in_name_order(b),
        by_name(a) == by_name(b),
    ensures
        a == b,
    decreases a.len(),
{
    if a.len() == 0 {
        if b.len() > 0 {
            lemma_by_name(b, 0);
            assert(named(a, b[0].tool_name()));
        }
        assert(a =~= b);
    } else {
        lemma_by_name(a, 0);
        assert(named(b, a[0].tool_name()));
        let j = choose|j: int| 0 <= j < b.len() && #[trigger] b[j].tool_name() == a[0].tool_name();
        lemma_by_name(b, 0);
        assert(named(a, b[0].tool_name()));
        let i = choose|i: int| 0 <= i < a.len() && #[trigger] a[i].tool_name() == b[0].tool_name();
        text::lemma_precedes_total(a[0].tool_name(), b[0].tool_name());
        if i > 0 && j > 0 {
            assert(text::precedes(a[0].tool_name(), a[i].tool_name()));
            assert(text::precedes(b[0].tool_name(), b[j].tool_name()));
        }
        assert(a[0] == b[0]);
        lemma_removed(a, 0);
        lemma_removed(b, 0);
        lemma_same_listing(a.remove(0), b.remove(0));
        assert(a =~= seq![a[0]] + a.remove(0));
        assert(b =~= seq![b[0]] + b.remove(0));
    }
}

/// Registries that hold the same tools list them identically, whatever was
/// registered and removed before, in whatever order.
pub proof fn law_listing_depends_on_contents_only<T: Tool>(
    a: &ToolRegistry<T>,
    b: &ToolRegistry<T>,
)
    requires
        a.wf(),
        b.wf(),
        a@ == b@,
    ensures
        a.listing() == b.listing(),
{
    lemma_same_listing(a.tools@, b.tools@);
}

// What the declarations are for ---------------------------------------------------

/// Looking a member up finds the first member of that name, and finds nothing
/// exactly where no member has it.
pub proof fn law_members_are_found_by_name(
    before: Seq<(String, Value)>,
    name: String,
    value: Value,
    after: Seq<(String, Value)>,
    members: Seq<(String, Value)>,
    wanted: Seq<char>,
)
    ensures
        (forall|i: int| 0 <= i < before.len() ==> (#[trigger] before[i]).0@ != name@) ==> member(
            before.push((name, value)) + after,
            name@,
        ) == Some(value),
        member(members, wanted) is None <==> forall|i: int|
            0 <= i < members.len() ==> (#[trigger] members[i]).0@ != wanted,
{
    lemma_member_absent(members, wanted);
    if forall|i: int| 0 <= i < before.len() ==> (#[trigger] before[i]).0@ != name@ {
        lemma_member_first(before, name, value, after);
    }
}

proof fn lemma_member_absent(members: Seq<(String, Value)>, wanted: Seq<char>)
    ensures
        member(members, wanted) is None <==> forall|i: int|
            0 <= i < members.len() ==> (#[trigger] members[i]).0@ != wanted,
    decreases members.len(),
{
    if members.len() > 0 {
        let rest = members.drop_first();
        lemma_member_absent(rest, wanted);
        if member(members, wanted) is None {
            assert forall|i: int| 0 <= i < members.len() implies (#[trigger] members[i]).0@
                != wanted by {
                if i > 0 {
                    assert(rest[i - 1] == members[i]);
                }
            }
        } else if members[0].0@ != wanted {
            let i = choose|i: int| 0 <= i < rest.len() && (#[trigger] rest[i]).0@ == wanted;
            assert(members[i + 1] == rest[i]);
        }
    }
}

proof fn lemma_member_first(
    before: Seq<(String, Value)>,
    name: String,
    value: Value,
    after: Seq<(String, Value)>,
)
    requires
        forall|i: int| 0 <= i < before.len() ==> (#[trigger] before[i]).0@ != name@,
    ensures
        member(before.push((name, value)) + after, name@) == Some(value),
    decreases before.len(),
{
    let all = before.push((name, value)) + after;
    if before.len() > 0 {
        let fewer = before.drop_first();
        assert forall|i: int| 0 <= i < fewer.len() implies (#[trigger] fewer[i]).0@ != name@ by {
            assert(fewer[i] == before[i + 1]);
        }
        lemma_member_first(fewer, name, value, after);
        assert(all[0] == before[0]);
        assert(all.drop_first() =~= fewer.push((name, value)) + after);
    }
}

/// Looking a property up finds the declaration of that name, and finds nothing
/// exactly where none has it.
pub proof fn law_properties_are_found_by_name(
    properties: Seq<(Seq<char>, PropertyView)>,
    name: Seq<char>,
)
    ensures
        property(properties, name) is None <==> forall|i: int|
            0 <= i < properties.len() ==> (#[trigger] properties[i]).0 != name,
        property(properties, name) matches Some(def) ==> exists|i: int|
            0 <= i < properties.len() && #[trigger] properties[i] == (name, def) && forall|j: int|
                0 <= j < i ==> (#[trigger] properties[j]).0 != name,
    decreases properties.len(),
{
    if properties.len() > 0 {
        let rest = properties.drop_first();
        law_properties_are_found_by_name(rest, name);
        if properties[0].0 == name {
            assert(properties[0] == (name, property(properties, name)->Some_0));
        } else {
            match property(rest, name) {
                None => {
                    assert forall|i: int| 0 <= i < properties.len() implies (
                    #[trigger] properties[i]).0 != name by {
                        if i > 0 {
                            assert(rest[i - 1] == properties[i]);
                        }
                    }
                },
                Some(def) => {
                    let i = choose|i: int|
                        0 <= i < rest.len() && #[trigger] rest[i] == (name, def) && forall|j: int|
                            0 <= j < i ==> (#[trigger] rest[j]).0 != name;
                    assert(properties[i + 1] == (name, def));
                    assert forall|j: int| 0 <= j < i + 1 implies (#[trigger] properties[j]).0
                        != name by {
                        if j > 0 {
                            assert(rest[j - 1] == properties[j]);
                        }
                    }
                },
            }
        }
    }
}

/// The view of parameters shows every declared property and every required
/// name in its place, character for character.
pub proof fn law_parameter_views_show_the_declaration(params: ToolParams, def: PropertyDef, i: int)
    ensures
        def@.prop_type == def.prop_type@,
        def@.description == def.description@,
        def@.choices.len() == def.choices@.len(),
        0 <= i < def.choices@.len() ==> def@.choices[i] == def.choices@[i]@,
        params@.schema_type == params.schema_type@,
        params@.properties.len() == params.properties@.len(),
        0 <= i < params.properties@.len() ==> params@.properties[i] == (
            params.properties@[i].0@,
            params.properties@[i].1@,
        ),
        params@.required.len() == params.required@.len(),
        0 <= i < params.required@.len() ==> params@.required[i] == params.required@[i]@,
{
}

/// Declaring a property adds it behind the others; only a needed one becomes
/// required, and nothing that was declared changes.
pub proof fn law_declaring_adds_one_property(
    params: ParamsView,
    name: Seq<char>,
    def: PropertyView,
    description: Seq<char>,
)
    ensures
        no_params().properties.len() == 0 && no_params().required.len() == 0,
        no_params().schema_type == "object"@,
        taking(params, name, def).properties == params.properties.push((name, def)),
        taking(params, name, def).required == params.required,
        taking(params, name, def).schema_type == params.schema_type,
        needing(params, name, def).properties == params.properties.push((name, def)),
        needing(params, name, def).required == params.required.push(name),
        needing(params, name, def).schema_type == params.schema_type,
        string_property(description).prop_type == "string"@,
        string_property(description).description == description,
        string_property(description).choices.len() == 0,
        integer_property(description).prop_type == "integer"@,
        integer_property(description).description == description,
        integer_property(description).choices.len() == 0,
{
}

/// The refusal of a name says which name is taken.
pub proof fn law_refusals_name_the_tool(a: Seq<char>, b: Seq<char>)
    requires
        duplicate_tool_text(a) == duplicate_tool_text(b),
    ensures
        a == b,
{
    let head = "duplicate tool name '"@;
    let tail =
        "': a tool with this name is already registered; refusing to start with conflicting tools"@;
    let x = duplicate_tool_text(a);
    let y = duplicate_tool_text(b);
    assert(x.subrange(head.len() as int, x.len() - tail.len()) =~= a);
    assert(y.subrange(head.len() as int, y.len() - tail.len()) =~= b);
}

/// Diagnostics show a value with its kind: a string between quotation marks, the
/// elements of an array and the members of an object each in its place.
pub proof fn law_diagnostics_show_the_value(
    s: String,
    a: Vec<Value>,
    m: Vec<(String, Value)>,
    i: int,
)
    ensures
        debug_text(Value::Null) == "Null"@,
        debug_text(Value::Bool(true)) == "Bool(true)"@,
        debug_text(Value::Bool(false)) == "Bool(false)"@,
        debug_text(Value::String(s)) == "String("@ + platform::quoted(s@) + ")"@,
        debug_text(Value::Array(a)) == "Array(["@ + text::joined(debug_elements(a@), ", "@)
            + "])"@,
        debug_text(Value::Object(m)) == "Object({"@ + text::joined(debug_members(m@), ", "@)
            + "})"@,
        debug_elements(a@).len() == a@.len(),
        0 <= i < a@.len() ==> debug_elements(a@)[i] == debug_text(a@[i]),
        debug_members(m@).len() == m@.len(),
        0 <= i < m@.len() ==> debug_members(m@)[i] == platform::quoted(m@[i].0@) + ": "@
            + debug_text(m@[i].1),
{
    lemma_elements_shown(a@, i);
    lemma_members_shown(m@, i);
}

proof fn lemma_elements_shown(a: Seq<Value>, i: int)
    ensures
        debug_elements(a).len() == a.len(),
        0 <= i < a.len() ==> debug_elements(a)[i] == debug_text(a[i]),
    decreases a.len(),
{
    if a.len() > 0 {
        let fewer = a.subrange(0, a.len() - 1);
        lemma_elements_shown(fewer, i);
        if 0 <= i < fewer.len() {
            assert(fewer[i] == a[i]);
        }
    }
}

proof fn lemma_members_shown(m: Seq<(String, Value)>, i: int)
    ensures
        debug_members(m).len() == m.len(),
        0 <= i < m.len() ==> debug_members(m)[i] == platform::quoted(m[i].0@) + ": "@ + debug_text(
            m[i].1,
        ),
    decreases m.len(),
{
    if m.len() > 0 {
        let fewer = m.subrange(0, m.len() - 1);
        lemma_members_shown(fewer, i);
        if 0 <= i < fewer.len() {
            assert(fewer[i] == m[i]);
        }
    }
}

} // verus!
