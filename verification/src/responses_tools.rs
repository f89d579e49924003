//! Function calling: the tools of a request, the envelope that the model answers
//! in, and the calls it makes.
//!
//! A `function` tool is `{type, name, parameters, description?, strict?}`,
//! `tool_choice` is `none`, `auto`, `required` or `{type: "function", name}`, and
//! `parallel_tool_calls` is a boolean. No tool is executed here.
//!
//! The model answers with one JSON envelope, which a grammar constrains when the
//! schemas allow it:
//!
//! - a direct answer is `{"message": "<text>"}`,
//! - one or more calls are `{"calls": [{"name": "<tool>", "arguments": {...}}]}`.
//!
//! `none` offers no tool, `auto` allows either shape, and `required` and a named
//! function force the `calls` shape.

use vstd::prelude::*;

use crate::json::{
    field,
    first_unknown,
    no_fields,
    text_field,
    unsigned,
    values_view,
    Json,
    JsonObject,
    JsonView,
};
use crate::json_text::{json_from_str, json_from_text, json_text, json_to_string};
use crate::responses_shape::{array_of, empty_array, no_items, one_item};
use crate::seqs::{lemma_try_map_ok, lemma_try_map_step, try_map};
use crate::text::{clone_text, decimal, decimal_text, same_text, trim, trimmed};

verus! {

/// One accepted `function` tool.
#[derive(Debug)]
pub struct FunctionTool {
    pub name: String,
    pub description: Option<String>,
    pub parameters: Json,
    /// The effective strict mode: the grammar was built and the request did not
    /// opt out.
    pub strict: bool,
}

/// The meaning of a [`FunctionTool`].
pub struct FunctionToolView {
    pub name: Seq<char>,
    pub description: Option<Seq<char>>,
    pub parameters: JsonView,
    pub strict: bool,
}

impl View for FunctionTool {
    type V = FunctionToolView;

    open spec fn view(&self) -> FunctionToolView {
        FunctionToolView {
            name: self.name@,
            description: self.description.deep_view(),
            parameters: self.parameters@,
            strict: self.strict,
        }
    }
}

/// The accepted `tool_choice` value.
#[derive(Debug, Clone, PartialEq, Eq)]
pub enum ToolChoice {
    /// The value `none`: no tool is offered.
    Never,
    Auto,
    Required,
    Function(String),
}

/// The meaning of a [`ToolChoice`].
pub enum ToolChoiceView {
    /// The value `none`: no tool is offered.
    Never,
    Auto,
    Required,
    Function(Seq<char>),
}

impl View for ToolChoice {
    type V = ToolChoiceView;

    open spec fn view(&self) -> ToolChoiceView {
        match self {
            ToolChoice::Never => ToolChoiceView::Never,
            ToolChoice::Auto => ToolChoiceView::Auto,
            ToolChoice::Required => ToolChoiceView::Required,
            ToolChoice::Function(name) => ToolChoiceView::Function(name@),
        }
    }
}

/// The validated tool request.
#[derive(Debug)]
pub struct ToolRequest {
    pub tools: Vec<FunctionTool>,
    pub choice: ToolChoice,
    pub parallel_tool_calls: bool,
    /// The envelope grammar. There is none when no tool is offered, or when the
    /// schemas form no grammar and no tool asked for strict mode.
    pub grammar: Option<String>,
}

/// The meaning of a [`ToolRequest`].
#[verifier::ext_equal]
pub struct ToolRequestView {
    pub tools: Seq<FunctionToolView>,
    pub choice: ToolChoiceView,
    pub parallel_tool_calls: bool,
    pub grammar: Option<Seq<char>>,
}

impl View for ToolRequest {
    type V = ToolRequestView;

    open spec fn view(&self) -> ToolRequestView {
        ToolRequestView {
            tools: Seq::new(self.tools@.len(), |i: int| self.tools@[i]@),
            choice: self.choice@,
            parallel_tool_calls: self.parallel_tool_calls,
            grammar: self.grammar.deep_view(),
        }
    }
}

/// One tool call produced by the model.
#[derive(Debug, Clone, PartialEq, Eq)]
pub struct ModelCall {
    pub name: String,
    /// The arguments as a JSON text.
    pub arguments: String,
}

/// The meaning of a [`ModelCall`].
pub struct ModelCallView {
    pub name: Seq<char>,
    pub arguments: Seq<char>,
}

impl View for ModelCall {
    type V = ModelCallView;

    open spec fn view(&self) -> ModelCallView {
        ModelCallView { name: self.name@, arguments: self.arguments@ }
    }
}

/// The views of calls.
pub open spec fn calls_view(calls: Seq<ModelCall>) -> Seq<ModelCallView> {
    Seq::new(calls.len(), |i: int| calls[i]@)
}

/// The decoded turn of the model.
#[derive(Debug, Clone, PartialEq, Eq)]
pub enum ModelTurn {
    Message(String),
    Calls(Vec<ModelCall>),
}

/// The meaning of a [`ModelTurn`].
pub enum ModelTurnView {
    Message(Seq<char>),
    Calls(Seq<ModelCallView>),
}

impl View for ModelTurn {
    type V = ModelTurnView;

    open spec fn view(&self) -> ModelTurnView {
        match self {
            ModelTurn::Message(text) => ModelTurnView::Message(text@),
            ModelTurn::Calls(calls) => ModelTurnView::Calls(calls_view(calls@)),
        }
    }
}

/// The values that the response body echoes for the accepted tool request.
#[derive(Debug, Clone)]
pub struct ToolEcho {
    pub parallel_tool_calls: bool,
    pub tool_choice: Json,
    pub tools: Json,
}

/// The meaning of a [`ToolEcho`].
pub struct ToolEchoView {
    pub parallel_tool_calls: bool,
    pub tool_choice: JsonView,
    pub tools: JsonView,
}

impl View for ToolEcho {
    type V = ToolEchoView;

    open spec fn view(&self) -> ToolEchoView {
        ToolEchoView {
            parallel_tool_calls: self.parallel_tool_calls,
            tool_choice: self.tool_choice@,
            tools: self.tools@,
        }
    }
}

/// The echo of a request that offers no tool.
pub open spec fn text_only_echo() -> ToolEchoView {
    ToolEchoView {
        parallel_tool_calls: false,
        tool_choice: JsonView::Str("none"@),
        tools: no_items(),
    }
}

impl ToolRequestView {
    /// At least one tool is offered to the model.
    pub open spec fn offers_tools(self) -> bool {
        self.tools.len() > 0 && !(self.choice is Never)
    }

    /// The echo of the tool definitions.
    pub open spec fn echo_tools(self) -> JsonView {
        JsonView::Array(Seq::new(self.tools.len(), |i: int| tool_object(self.tools[i])))
    }

    /// The echo of the resolved `tool_choice`.
    pub open spec fn echo_tool_choice(self) -> JsonView {
        match self.choice {
            ToolChoiceView::Never => JsonView::Str("none"@),
            ToolChoiceView::Auto => JsonView::Str("auto"@),
            ToolChoiceView::Required => JsonView::Str("required"@),
            ToolChoiceView::Function(name) => JsonView::Object(
                no_fields().insert("type"@, JsonView::Str("function"@)).insert(
                    "name"@,
                    JsonView::Str(name),
                ),
            ),
        }
    }

    /// What the response echoes of the request.
    pub open spec fn echo(self) -> ToolEchoView {
        if self.offers_tools() {
            ToolEchoView {
                parallel_tool_calls: self.parallel_tool_calls,
                tool_choice: self.echo_tool_choice(),
                tools: self.echo_tools(),
            }
        } else {
            text_only_echo()
        }
    }

    /// The system note about the envelope and the tools.
    pub open spec fn system_note(self) -> Option<Seq<char>> {
        if self.offers_tools() {
            Some(
                note_opening() + match self.choice {
                    ToolChoiceView::Required => "You must call at least one tool.\n"@,
                    ToolChoiceView::Function(name) => "You must call the function `"@ + name
                        + "`.\n"@,
                    _ => Seq::empty(),
                } + "Tools:\n"@ + tool_lines(self.tools),
            )
        } else {
            None
        }
    }
}

/// One tool as the response body shows it.
pub open spec fn tool_object(tool: FunctionToolView) -> JsonView {
    JsonView::Object(
        no_fields().insert("type"@, JsonView::Str("function"@)).insert(
            "name"@,
            JsonView::Str(tool.name),
        ).insert(
            "description"@,
            match tool.description {
                Some(description) => JsonView::Str(description),
                None => JsonView::Null,
            },
        ).insert("parameters"@, tool.parameters).insert("strict"@, JsonView::Bool(tool.strict)),
    )
}

/// How the system note opens.
pub open spec fn note_opening() -> Seq<char> {
    "You can call the tools below. Reply with one JSON object and nothing else.\nTo answer the user directly, reply {\"message\": \"<answer>\"}.\nTo call a tool, reply {\"calls\": [{\"name\": \"<tool>\", \"arguments\": {...}}]}.\n"@
}

/// The line of one tool in the system note.
pub open spec fn tool_line(tool: FunctionToolView) -> Seq<char> {
    "- "@ + tool.name + ": "@ + match tool.description {
        Some(description) => description,
        None => "no description"@,
    } + " arguments "@ + json_text(tool.parameters) + "\n"@
}

/// The lines of the tools in the system note.
pub open spec fn tool_lines(tools: Seq<FunctionToolView>) -> Seq<char>
    decreases tools.len(),
{
    if tools.len() == 0 {
        Seq::empty()
    } else {
        tool_lines(tools.drop_last()) + tool_line(tools.last())
    }
}

impl ToolEcho {
    /// The echo of a request that offers no tool.
    pub fn text_only() -> (echo: ToolEcho)
        ensures
            echo@ == text_only_echo(),
    {
        ToolEcho {
            parallel_tool_calls: false,
            tool_choice: Json::text("none"),
            tools: empty_array(),
        }
    }

    /// The echo of a request. Where no tool is offered it is that of a text
    /// request, whatever was declared.
    pub fn from_request(request: &ToolRequest) -> (echo: ToolEcho)
        ensures
            echo@ == request@.echo(),
    {
        if !request.offers_tools() {
            return ToolEcho::text_only();
        }
        ToolEcho {
            parallel_tool_calls: request.parallel_tool_calls,
            tool_choice: request.echo_tool_choice(),
            tools: request.echo_tools(),
        }
    }
}

impl ToolRequest {
    /// True when at least one tool is offered to the model.
    pub fn offers_tools(&self) -> (offers: bool)
        ensures
            offers == self@.offers_tools(),
    {
        self.tools.len() > 0 && !matches!(self.choice, ToolChoice::Never)
    }

    /// The tool definitions that the response body echoes.
    pub fn echo_tools(&self) -> (echo: Json)
        ensures
            echo@ == self@.echo_tools(),
    {
        let mut items: Vec<Json> = Vec::new();
        let size: usize = self.tools.len();
        for i in 0..size
            invariant
                size == self.tools@.len(),
                items@.len() == i,
                forall|j: int|
                    0 <= j < i ==> (#[trigger] items@[j])@ == tool_object(self@.tools[j]),
        {
            let tool = &self.tools[i];
            let description = match &tool.description {
                Some(description) => Json::text(description.as_str()),
                None => Json::Null,
            };
            items.push(
                Json::Object(
                    JsonObject::new().with("type", Json::text("function")).with(
                        "name",
                        Json::text(tool.name.as_str()),
                    ).with("description", description).with(
                        "parameters",
                        tool.parameters.clone(),
                    ).with("strict", Json::Bool(tool.strict)),
                ),
            );
        }
        let echo = array_of(items);
        assert(echo@->Array_0 =~= self@.echo_tools()->Array_0);
        echo
    }

    /// The resolved `tool_choice` that the response body echoes.
    pub fn echo_tool_choice(&self) -> (echo: Json)
        ensures
            echo@ == self@.echo_tool_choice(),
    {
        match &self.choice {
            ToolChoice::Never => Json::text("none"),
            ToolChoice::Auto => Json::text("auto"),
            ToolChoice::Required => Json::text("required"),
            ToolChoice::Function(name) => Json::Object(
                JsonObject::new().with("type", Json::text("function")).with(
                    "name",
                    Json::text(name.as_str()),
                ),
            ),
        }
    }

    /// The system note that describes the envelope and the declared tools.
    pub fn system_note(&self) -> (note: Option<String>)
        ensures
            note.deep_view() == self@.system_note(),
    {
        if !self.offers_tools() {
            return None;
        }
        let mut note =
            "You can call the tools below. Reply with one JSON object and nothing else.\nTo answer the user directly, reply {\"message\": \"<answer>\"}.\nTo call a tool, reply {\"calls\": [{\"name\": \"<tool>\", \"arguments\": {...}}]}.\n".to_owned();
        match &self.choice {
            ToolChoice::Required => note.append("You must call at least one tool.\n"),
            ToolChoice::Function(name) => {
                note.append("You must call the function `");
                note.append(name.as_str());
                note.append("`.\n");
            },
            _ => {},
        }
        note.append("Tools:\n");
        let ghost opening = note@;
        let ghost views = self@.tools;
        assert(views.take(0) =~= Seq::empty());
        assert(opening + tool_lines(views.take(0)) =~= opening);
        let size: usize = self.tools.len();
        for i in 0..size
            invariant
                size == self.tools@.len(),
                views == self@.tools,
                note@ == opening + tool_lines(views.take(i as int)),
        {
            let tool = &self.tools[i];
            proof {
                let taken = views.take(i as int + 1);
                assert(taken.drop_last() =~= views.take(i as int));
                assert(taken.last() == tool@);
            }
            let ghost before = note@;
            note.append("- ");
            note.append(tool.name.as_str());
            note.append(": ");
            match &tool.description {
                Some(description) => note.append(description.as_str()),
                None => note.append("no description"),
            }
            note.append(" arguments ");
            note.append(json_to_string(&tool.parameters).as_str());
            note.append("\n");
            assert(note@ =~= before + tool_line(tool@));
            assert(note@ =~= opening + (tool_lines(views.take(i as int)) + tool_line(tool@)));
        }
        assert(views.take(size as int) =~= views);
        assert(note@ =~= self@.system_note()->0);
        Some(note)
    }
}

/// One `tools` entry before its effective strict mode is known.
#[derive(Debug)]
pub struct PendingTool {
    pub name: String,
    pub description: Option<String>,
    pub parameters: Json,
    pub strict_requested: Option<bool>,
}

/// The meaning of a declared tool: its definition and the strict mode it asked
/// for.
pub struct PendingToolView {
    pub name: Seq<char>,
    pub description: Option<Seq<char>>,
    pub parameters: JsonView,
    pub strict_requested: Option<bool>,
}

impl View for PendingTool {
    type V = PendingToolView;

    open spec fn view(&self) -> PendingToolView {
        PendingToolView {
            name: self.name@,
            description: self.description.deep_view(),
            parameters: self.parameters@,
            strict_requested: self.strict_requested,
        }
    }
}

/// The views of declared tools.
pub open spec fn pending_view(tools: Seq<PendingTool>) -> Seq<PendingToolView> {
    Seq::new(tools.len(), |i: int| tools[i]@)
}

/// The wording of a refused `tools` entry. Every message names `tools`.
pub open spec fn tools_message(message: Seq<char>) -> Seq<char> {
    "`tools` "@ + message
}

fn tools_error(message: &str) -> (text: String)
    ensures
        text@ == tools_message(message@),
{
    "`tools` ".to_owned().concat(message)
}

/// The wording of a refused function.
pub open spec fn function_message(name: Seq<char>, rest: Seq<char>) -> Seq<char> {
    tools_message("function `"@ + name + rest)
}

fn function_error(name: &str, rest: &str) -> (text: String)
    ensures
        text@ == function_message(name@, rest@),
{
    tools_error("function `".to_owned().concat(name).concat(rest).as_str())
}

/// The fields of a `tools` entry.
pub open spec fn tool_keys() -> Seq<Seq<char>> {
    seq!["type"@, "name"@, "description"@, "parameters"@, "strict"@]
}

/// What a `tools` entry declares, or why it is refused. An unsupported field is
/// named first, then the fields are looked at one after the other.
pub open spec fn read_tool(value: JsonView) -> Result<PendingToolView, Seq<char>> {
    match value {
        JsonView::Object(object) => match first_unknown(object, tool_keys()) {
            Some(key) => Err(
                tools_message("entry has an unsupported field `"@ + key + "`"@),
            ),
            None => match text_field(value, "type"@) {
                None => Err(tools_message("entry requires a string `type`"@)),
                Some(kind) => if kind != "function"@ {
                    Err(
                        tools_message(
                            "entry type `"@ + kind
                                + "` is not supported; only `function` tools are implemented"@,
                        ),
                    )
                } else {
                    read_function(value)
                },
            },
        },
        _ => Err(tools_message("entry must be an object"@)),
    }
}

/// What a `function` entry declares, or why it is refused.
pub open spec fn read_function(value: JsonView) -> Result<PendingToolView, Seq<char>> {
    match text_field(value, "name"@) {
        Some(name) => if name.len() == 0 {
            Err(tools_message("function entry requires a non-empty string `name`"@))
        } else {
            match field(value, "parameters"@) {
                Some(JsonView::Object(parameters)) => match (
                    read_description(name, field(value, "description"@)),
                    read_strict(name, field(value, "strict"@)),
                ) {
                    (Err(error), _) => Err(error),
                    (_, Err(error)) => Err(error),
                    (Ok(description), Ok(strict_requested)) => Ok(
                        PendingToolView {
                            name,
                            description,
                            parameters: JsonView::Object(parameters),
                            strict_requested,
                        },
                    ),
                },
                _ => Err(function_message(name, "` requires an object `parameters`"@)),
            }
        },
        None => Err(tools_message("function entry requires a non-empty string `name`"@)),
    }
}

/// The description of a function, or why it is refused.
pub open spec fn read_description(name: Seq<char>, value: Option<JsonView>) -> Result<
    Option<Seq<char>>,
    Seq<char>,
> {
    match value {
        None => Ok(None),
        Some(JsonView::Null) => Ok(None),
        Some(JsonView::Str(text)) => Ok(Some(text)),
        Some(_) => Err(function_message(name, "` `description` must be a string"@)),
    }
}

/// The strict mode that a function asks for, or why it is refused.
pub open spec fn read_strict(name: Seq<char>, value: Option<JsonView>) -> Result<
    Option<bool>,
    Seq<char>,
> {
    match value {
        None => Ok(None),
        Some(JsonView::Null) => Ok(None),
        Some(JsonView::Bool(strict)) => Ok(Some(strict)),
        Some(_) => Err(function_message(name, "` `strict` must be a boolean"@)),
    }
}

/// What `read` holds is what the contract speaks of.
spec fn same_tool(
    read: Result<PendingTool, String>,
    expected: Result<PendingToolView, Seq<char>>,
) -> bool {
    match read {
        Ok(tool) => expected == Ok::<PendingToolView, Seq<char>>(tool@),
        Err(message) => expected == Err::<PendingToolView, Seq<char>>(message@),
    }
}

fn parse_tool(value: &Json) -> (read: Result<PendingTool, String>)
    ensures
        same_tool(read, read_tool(value@)),
{
    let object = match value {
        Json::Object(object) => object,
        _ => {
            return Err(tools_error("entry must be an object"));
        },
    };
    let known = vec!["type", "name", "description", "parameters", "strict"];
    assert(known.deep_view() =~= tool_keys());
    match object.unknown_key(&known) {
        Some(key) => {
            return Err(
                tools_error(
                    "entry has an unsupported field `".to_owned().concat(key.as_str()).concat(
                        "`",
                    ).as_str(),
                ),
            );
        },
        None => {},
    }
    let kind = match value.get_str("type") {
        Some(kind) => kind,
        None => {
            return Err(tools_error("entry requires a string `type`"));
        },
    };
    if !same_text(kind, "function") {
        return Err(
            tools_error(
                "entry type `".to_owned().concat(kind).concat(
                    "` is not supported; only `function` tools are implemented",
                ).as_str(),
            ),
        );
    }
    let name = match value.get_str("name") {
        Some(name) => name,
        None => {
            return Err(tools_error("function entry requires a non-empty string `name`"));
        },
    };
    if name.is_empty() {
        return Err(tools_error("function entry requires a non-empty string `name`"));
    }
    let parameters = match object.get("parameters") {
        Some(Json::Object(parameters)) => Json::Object(parameters.clone()),
        _ => {
            return Err(function_error(name, "` requires an object `parameters`"));
        },
    };
    let description = match object.get("description") {
        None => None,
        Some(Json::Null) => None,
        Some(Json::Str(text)) => Some(text.clone()),
        Some(_) => {
            return Err(function_error(name, "` `description` must be a string"));
        },
    };
    let strict_requested = match object.get("strict") {
        None => None,
        Some(Json::Null) => None,
        Some(Json::Bool(strict)) => Some(*strict),
        Some(_) => {
            return Err(function_error(name, "` `strict` must be a boolean"));
        },
    };
    Ok(PendingTool { name: name.to_owned(), description, parameters, strict_requested })
}

/// A declared tool has the name.
pub open spec fn declares(tools: Seq<PendingToolView>, name: Seq<char>) -> bool {
    exists|i: int| 0 <= i < tools.len() && (#[trigger] tools[i]).name == name
}

/// The `tool_choice` of a request, or why it is refused. None and `null` mean
/// `auto`.
pub open spec fn read_tool_choice(value: Option<JsonView>, tools: Seq<PendingToolView>) -> Result<
    ToolChoiceView,
    Seq<char>,
> {
    match value {
        None => Ok(ToolChoiceView::Auto),
        Some(JsonView::Null) => Ok(ToolChoiceView::Auto),
        Some(JsonView::Str(choice)) => if choice == "none"@ {
            Ok(ToolChoiceView::Never)
        } else if choice == "auto"@ {
            Ok(ToolChoiceView::Auto)
        } else if choice == "required"@ {
            if tools.len() == 0 {
                Err("`tool_choice` `required` needs at least one `tools` entry"@)
            } else {
                Ok(ToolChoiceView::Required)
            }
        } else {
            Err(
                "`tool_choice` `"@ + choice
                    + "` is not supported; use `none`, `auto`, `required`, or a named function"@,
            )
        },
        Some(JsonView::Object(object)) => match (
            text_field(JsonView::Object(object), "type"@),
            text_field(JsonView::Object(object), "name"@),
        ) {
            (Some(kind), Some(name)) => if kind != "function"@ {
                Err(choice_object_message())
            } else if declares(tools, name) {
                Ok(ToolChoiceView::Function(name))
            } else {
                Err("`tool_choice` names `"@ + name + "`, which is not a declared tool"@)
            },
            _ => Err(choice_object_message()),
        },
        Some(_) => Err(
            "`tool_choice` must be `none`, `auto`, `required`, or a named function"@,
        ),
    }
}

/// The wording of a refused `tool_choice` object.
pub open spec fn choice_object_message() -> Seq<char> {
    "`tool_choice` object must be `{\"type\":\"function\",\"name\":\"<declared>\"}`"@
}

fn has_tool(tools: &Vec<PendingTool>, name: &str) -> (found: bool)
    ensures
        found == declares(pending_view(tools@), name@),
{
    let ghost views = pending_view(tools@);
    let size: usize = tools.len();
    for i in 0..size
        invariant
            size == tools@.len(),
            views == pending_view(tools@),
            forall|j: int| 0 <= j < i ==> (#[trigger] views[j]).name != name@,
    {
        if same_text(tools[i].name.as_str(), name) {
            assert(views[i as int].name == name@);
            return true;
        }
    }
    false
}

fn parse_tool_choice(value: Option<&Json>, tools: &Vec<PendingTool>) -> (read: Result<
    ToolChoice,
    String,
>)
    ensures
        match read {
            Ok(choice) => read_tool_choice(value.deep_view(), pending_view(tools@)) == Ok::<
                ToolChoiceView,
                Seq<char>,
            >(choice@),
            Err(message) => read_tool_choice(value.deep_view(), pending_view(tools@)) == Err::<
                ToolChoiceView,
                Seq<char>,
            >(message@),
        },
{
    let value = match value {
        Some(value) => value,
        None => {
            return Ok(ToolChoice::Auto);
        },
    };
    match value {
        Json::Null => Ok(ToolChoice::Auto),
        Json::Str(choice) => {
            let choice = choice.as_str();
            if same_text(choice, "none") {
                Ok(ToolChoice::Never)
            } else if same_text(choice, "auto") {
                Ok(ToolChoice::Auto)
            } else if same_text(choice, "required") {
                if tools.len() == 0 {
                    Err("`tool_choice` `required` needs at least one `tools` entry".to_owned())
                } else {
                    Ok(ToolChoice::Required)
                }
            } else {
                Err(
                    "`tool_choice` `".to_owned().concat(choice).concat(
                        "` is not supported; use `none`, `auto`, `required`, or a named function",
                    ),
                )
            }
        },
        Json::Object(_) => {
            match (value.get_str("type"), value.get_str("name")) {
                (Some(kind), Some(name)) => if !same_text(kind, "function") {
                    Err(
                        "`tool_choice` object must be `{\"type\":\"function\",\"name\":\"<declared>\"}`".to_owned(),
                    )
                } else if has_tool(tools, name) {
                    Ok(ToolChoice::Function(name.to_owned()))
                } else {
                    Err(
                        "`tool_choice` names `".to_owned().concat(name).concat(
                            "`, which is not a declared tool",
                        ),
                    )
                },
                _ => Err(
                    "`tool_choice` object must be `{\"type\":\"function\",\"name\":\"<declared>\"}`".to_owned(),
                ),
            }
        },
        _ => Err(
            "`tool_choice` must be `none`, `auto`, `required`, or a named function".to_owned(),
        ),
    }
}

/// The tools that the model may call.
pub open spec fn allowed_tools(tools: Seq<PendingToolView>, choice: ToolChoiceView) -> Seq<
    PendingToolView,
> {
    match choice {
        ToolChoiceView::Function(name) => tools.filter(|tool: PendingToolView| tool.name == name),
        _ => tools,
    }
}

/// The schema of a call of one tool.
pub open spec fn call_schema(tool: PendingToolView) -> JsonView {
    JsonView::Object(
        no_fields().insert("type"@, JsonView::Str("object"@)).insert(
            "properties"@,
            JsonView::Object(
                no_fields().insert(
                    "name"@,
                    JsonView::Object(
                        no_fields().insert(
                            "enum"@,
                            JsonView::Array(seq![JsonView::Str(tool.name)]),
                        ),
                    ),
                ).insert("arguments"@, tool.parameters),
            ),
        ).insert(
            "required"@,
            JsonView::Array(seq![JsonView::Str("name"@), JsonView::Str("arguments"@)]),
        ).insert("additionalProperties"@, JsonView::Bool(false)),
    )
}

/// The schema of a call of any allowed tool.
pub open spec fn any_call_schema(allowed: Seq<PendingToolView>) -> JsonView {
    if allowed.len() == 1 {
        call_schema(allowed[0])
    } else {
        JsonView::Object(
            no_fields().insert(
                "anyOf"@,
                JsonView::Array(Seq::new(allowed.len(), |i: int| call_schema(allowed[i]))),
            ),
        )
    }
}

/// The schema of the list of calls: at least one, and only one where calls are
/// not parallel.
pub open spec fn calls_schema(allowed: Seq<PendingToolView>, parallel: bool) -> JsonView {
    let fields = no_fields().insert("type"@, JsonView::Str("array"@)).insert(
        "minItems"@,
        unsigned(1),
    ).insert("items"@, any_call_schema(allowed));
    JsonView::Object(
        if parallel {
            fields
        } else {
            fields.insert("maxItems"@, unsigned(1))
        },
    )
}

/// The schema of an object with one field.
pub open spec fn shape_schema(key: Seq<char>, schema: JsonView) -> JsonView {
    JsonView::Object(
        no_fields().insert("type"@, JsonView::Str("object"@)).insert(
            "properties"@,
            JsonView::Object(no_fields().insert(key, schema)),
        ).insert("required"@, JsonView::Array(seq![JsonView::Str(key)])).insert(
            "additionalProperties"@,
            JsonView::Bool(false),
        ),
    )
}

/// The schema of the envelope. The message shape is there only when the model may
/// answer directly; there is no schema when it may call nothing.
pub open spec fn envelope(
    tools: Seq<PendingToolView>,
    parallel: bool,
    choice: ToolChoiceView,
) -> Option<JsonView> {
    let allowed = allowed_tools(tools, choice);
    let calls = shape_schema("calls"@, calls_schema(allowed, parallel));
    if allowed.len() == 0 {
        None
    } else if choice is Auto {
        Some(
            JsonView::Object(
                no_fields().insert(
                    "anyOf"@,
                    JsonView::Array(seq![shape_schema("message"@, string_schema()), calls]),
                ),
            ),
        )
    } else {
        Some(calls)
    }
}

/// The schema of a string.
pub open spec fn string_schema() -> JsonView {
    JsonView::Object(no_fields().insert("type"@, JsonView::Str("string"@)))
}

fn two_items(first: Json, second: Json) -> (value: Json)
    ensures
        value@ == JsonView::Array(seq![first@, second@]),
{
    let ghost expected = seq![first@, second@];
    let mut items: Vec<Json> = Vec::new();
    items.push(first);
    items.push(second);
    let value = array_of(items);
    assert(value@->Array_0 =~= expected);
    value
}

fn shape(key: &str, schema: Json) -> (value: Json)
    ensures
        value@ == shape_schema(key@, schema@),
{
    Json::Object(
        JsonObject::new().with("type", Json::text("object")).with(
            "properties",
            Json::Object(JsonObject::new().with(key, schema)),
        ).with("required", one_item(Json::text(key))).with(
            "additionalProperties",
            Json::Bool(false),
        ),
    )
}

fn schema_of_call(tool: &PendingTool) -> (value: Json)
    ensures
        value@ == call_schema(tool@),
{
    let names = one_item(Json::text(tool.name.as_str()));
    let properties = JsonObject::new().with(
        "name",
        Json::Object(JsonObject::new().with("enum", names)),
    ).with("arguments", tool.parameters.clone());
    Json::Object(
        JsonObject::new().with("type", Json::text("object")).with(
            "properties",
            Json::Object(properties),
        ).with("required", two_items(Json::text("name"), Json::text("arguments"))).with(
            "additionalProperties",
            Json::Bool(false),
        ),
    )
}

/// The schemas of calls of the allowed tools.
fn allowed_schemas(tools: &Vec<PendingTool>, choice: &ToolChoice) -> (schemas: Vec<Json>)
    ensures
        values_view(schemas@) == allowed_tools(pending_view(tools@), choice@).map_values(
            |tool: PendingToolView| call_schema(tool),
        ),
{
    let ghost views = pending_view(tools@);
    let ghost f = |tool: PendingToolView| call_schema(tool);
    let mut schemas: Vec<Json> = Vec::new();
    proof {
        reveal(Seq::filter);
        assert(views.take(0) =~= Seq::empty());
        assert(values_view(schemas@) =~= allowed_tools(views.take(0), choice@).map_values(f));
    }
    let size: usize = tools.len();
    for i in 0..size
        invariant
            size == tools@.len(),
            views == pending_view(tools@),
            f == (|tool: PendingToolView| call_schema(tool)),
            values_view(schemas@) == allowed_tools(views.take(i as int), choice@).map_values(f),
    {
        let tool = &tools[i];
        let allowed = match choice {
            ToolChoice::Function(name) => same_text(tool.name.as_str(), name.as_str()),
            _ => true,
        };
        let ghost before = allowed_tools(views.take(i as int), choice@);
        proof {
            reveal(Seq::filter);
            let taken = views.take(i as int + 1);
            assert(taken.drop_last() =~= views.take(i as int));
            assert(taken.last() == tool@);
            if allowed {
                assert(allowed_tools(taken, choice@) =~= before.push(tool@));
            } else {
                assert(allowed_tools(taken, choice@) =~= before);
            }
        }
        if allowed {
            let ghost done = values_view(schemas@);
            schemas.push(schema_of_call(tool));
            assert(values_view(schemas@) =~= done.push(call_schema(tool@)));
            assert(before.push(tool@).map_values(f) =~= done.push(call_schema(tool@)));
        }
    }
    assert(views.take(size as int) =~= views);
    schemas
}

fn envelope_schema(tools: &Vec<PendingTool>, parallel: bool, choice: &ToolChoice) -> (schema:
    Option<Json>)
    ensures
        schema.deep_view() == envelope(pending_view(tools@), parallel, choice@),
{
    let ghost allowed = allowed_tools(pending_view(tools@), choice@);
    let mut schemas = allowed_schemas(tools, choice);
    assert(values_view(schemas@).len() == allowed.len());
    if schemas.len() == 0 {
        return None;
    }
    let call = if schemas.len() == 1 {
        assert(values_view(schemas@)[0] == call_schema(allowed[0]));
        schemas.remove(0)
    } else {
        let list = array_of(schemas);
        assert(list@->Array_0 =~= Seq::new(allowed.len(), |i: int| call_schema(allowed[i])));
        Json::Object(JsonObject::new().with("anyOf", list))
    };
    let mut calls = JsonObject::new().with("type", Json::text("array")).with(
        "minItems",
        Json::unsigned(1),
    ).with("items", call);
    if !parallel {
        calls = calls.with("maxItems", Json::unsigned(1));
    }
    let calls_shape = shape("calls", Json::Object(calls));
    if let ToolChoice::Auto = choice {
        let text = Json::Object(JsonObject::new().with("type", Json::text("string")));
        let message_shape = shape("message", text);
        Some(
            Json::Object(
                JsonObject::new().with("anyOf", two_items(message_shape, calls_shape)),
            ),
        )
    } else {
        Some(calls_shape)
    }
}

/// Reads one entry of `tools`.
pub open spec fn tool_reader() -> spec_fn(JsonView) -> Result<PendingToolView, Seq<char>> {
    |value: JsonView| read_tool(value)
}

/// The declared tools and the choice among them, or the first reason why the
/// request is refused.
pub open spec fn read_declarations(tools: Option<Seq<JsonView>>, choice: Option<JsonView>) -> Result<
    (Seq<PendingToolView>, ToolChoiceView),
    Seq<char>,
> {
    let entries = match tools {
        Some(entries) => entries,
        None => Seq::empty(),
    };
    match try_map(tool_reader(), entries) {
        Err(error) => Err(error),
        Ok(pending) => match read_tool_choice(choice, pending) {
            Err(error) => Err(error),
            Ok(choice) => Ok((pending, choice)),
        },
    }
}

/// The tool with its effective strict mode.
pub open spec fn settle_tool(tool: PendingToolView, strict: bool) -> FunctionToolView {
    FunctionToolView {
        name: tool.name,
        description: tool.description,
        parameters: tool.parameters,
        strict,
    }
}

/// The tools with their effective strict mode: on where the grammar was built and
/// the tool did not opt out.
pub open spec fn settle_tools(tools: Seq<PendingToolView>, built: bool) -> Seq<FunctionToolView> {
    Seq::new(
        tools.len(),
        |i: int| settle_tool(tools[i], built && tools[i].strict_requested != Some(false)),
    )
}

/// Some tool asks for strict mode.
pub open spec fn asks_strict(tools: Seq<PendingToolView>) -> bool {
    exists|i: int| 0 <= i < tools.len() && (#[trigger] tools[i]).strict_requested == Some(true)
}

/// The envelope grammar, or why there is none. `converted` is what came of the
/// conversion of the envelope schema.
pub open spec fn envelope_grammar(
    schema: Option<JsonView>,
    converted: Result<Seq<char>, Seq<char>>,
) -> Result<Seq<char>, Seq<char>> {
    match schema {
        None => Err("`tools` cannot form a grammar"@),
        Some(_) => match converted {
            Ok(grammar) => Ok(grammar),
            Err(error) => Err("`tools` schema is not a supported JSON schema: "@ + error),
        },
    }
}

/// The validated tool request, or why it is refused.
pub open spec fn read_tools(
    tools: Option<Seq<JsonView>>,
    choice: Option<JsonView>,
    parallel_tool_calls: Option<bool>,
    converted: Result<Seq<char>, Seq<char>>,
) -> Result<ToolRequestView, Seq<char>> {
    let parallel = match parallel_tool_calls {
        Some(parallel) => parallel,
        None => true,
    };
    match read_declarations(tools, choice) {
        Err(error) => Err(error),
        Ok((pending, choice)) => if pending.len() == 0 || choice is Never {
            Ok(
                ToolRequestView {
                    tools: settle_tools(pending, false),
                    choice,
                    parallel_tool_calls: parallel,
                    grammar: None,
                },
            )
        } else {
            match envelope_grammar(envelope(pending, parallel, choice), converted) {
                Ok(grammar) => Ok(
                    ToolRequestView {
                        tools: settle_tools(pending, true),
                        choice,
                        parallel_tool_calls: parallel,
                        grammar: Some(grammar),
                    },
                ),
                Err(error) => if asks_strict(pending) {
                    Err(error)
                } else {
                    Ok(
                        ToolRequestView {
                            tools: settle_tools(pending, false),
                            choice,
                            parallel_tool_calls: parallel,
                            grammar: None,
                        },
                    )
                },
            }
        },
    }
}

/// The text of the schema that the envelope grammar is made from. There is none
/// where the request is refused or offers no tool.
pub open spec fn schema_to_convert(
    tools: Option<Seq<JsonView>>,
    choice: Option<JsonView>,
    parallel_tool_calls: Option<bool>,
) -> Option<Seq<char>> {
    let parallel = match parallel_tool_calls {
        Some(parallel) => parallel,
        None => true,
    };
    match read_declarations(tools, choice) {
        Err(_) => None,
        Ok((pending, choice)) => if pending.len() == 0 || choice is Never {
            None
        } else {
            match envelope(pending, parallel, choice) {
                Some(schema) => Some(json_text(schema)),
                None => None,
            }
        },
    }
}

/// The optional list of values.
pub open spec fn option_values(items: Option<&Vec<Json>>) -> Option<Seq<JsonView>> {
    match items {
        Some(items) => Some(values_view(items@)),
        None => None,
    }
}

/// The views of a result whose error is a text.
pub open spec fn text_result(result: Result<String, String>) -> Result<Seq<char>, Seq<char>> {
    match result {
        Ok(text) => Ok(text@),
        Err(message) => Err(message@),
    }
}

fn parse_declarations(tools: Option<&Vec<Json>>, choice: Option<&Json>) -> (read: Result<
    (Vec<PendingTool>, ToolChoice),
    String,
>)
    ensures
        match read {
            Ok((pending, choice_read)) => read_declarations(
                option_values(tools),
                choice.deep_view(),
            ) == Ok::<(Seq<PendingToolView>, ToolChoiceView), Seq<char>>(
                (pending_view(pending@), choice_read@),
            ),
            Err(message) => read_declarations(option_values(tools), choice.deep_view()) == Err::<
                (Seq<PendingToolView>, ToolChoiceView),
                Seq<char>,
            >(message@),
        },
{
    let mut pending: Vec<PendingTool> = Vec::new();
    let ghost entries = match option_values(tools) {
        Some(entries) => entries,
        None => Seq::empty(),
    };
    let ghost f = tool_reader();
    assert(pending_view(pending@) =~= Seq::empty());
    if let Some(list) = tools {
        assert(entries.take(0) =~= Seq::empty());
        let size: usize = list.len();
        for i in 0..size
            invariant
                size == list@.len(),
                entries == values_view(list@),
                entries == (match option_values(tools) {
                    Some(entries) => entries,
                    None => Seq::empty(),
                }),
                f == tool_reader(),
                try_map(f, entries.take(i as int)) == Ok::<Seq<PendingToolView>, Seq<char>>(
                    pending_view(pending@),
                ),
        {
            proof {
                lemma_try_map_step(f, entries, i as int);
            }
            match parse_tool(&list[i]) {
                Ok(tool) => {
                    let ghost before = pending_view(pending@);
                    pending.push(tool);
                    assert(pending_view(pending@) =~= before.push(tool@));
                },
                Err(message) => {
                    return Err(message);
                },
            }
        }
        assert(entries.take(size as int) =~= entries);
    }
    match parse_tool_choice(choice, &pending) {
        Ok(choice) => Ok((pending, choice)),
        Err(message) => Err(message),
    }
}

fn settled(pending: &Vec<PendingTool>, built: bool) -> (tools: Vec<FunctionTool>)
    ensures
        Seq::new(tools@.len(), |i: int| tools@[i]@) == settle_tools(pending_view(pending@), built),
{
    let ghost views = pending_view(pending@);
    let mut tools: Vec<FunctionTool> = Vec::new();
    let size: usize = pending.len();
    for i in 0..size
        invariant
            size == pending@.len(),
            views == pending_view(pending@),
            tools@.len() == i,
            forall|j: int| 0 <= j < i ==> (#[trigger] tools@[j])@ == settle_tools(views, built)[j],
    {
        let tool = &pending[i];
        let opted_out = match tool.strict_requested {
            Some(strict) => !strict,
            None => false,
        };
        tools.push(
            FunctionTool {
                name: tool.name.clone(),
                description: clone_text(&tool.description),
                parameters: tool.parameters.clone(),
                strict: built && !opted_out,
            },
        );
    }
    assert(Seq::new(tools@.len(), |i: int| tools@[i]@) =~= settle_tools(views, built));
    tools
}

fn any_strict(pending: &Vec<PendingTool>) -> (any: bool)
    ensures
        any == asks_strict(pending_view(pending@)),
{
    let ghost views = pending_view(pending@);
    let size: usize = pending.len();
    for i in 0..size
        invariant
            size == pending@.len(),
            views == pending_view(pending@),
            forall|j: int|
                0 <= j < i ==> (#[trigger] views[j]).strict_requested != Some(true),
    {
        if let Some(strict) = pending[i].strict_requested {
            if strict {
                assert(views[i as int].strict_requested == Some(true));
                return true;
            }
        }
    }
    false
}

/// The text of the schema that the envelope grammar is made from, for
/// [`parse_tools`] to take what came of it. There is none where the request is
/// refused or offers no tool.
pub fn tools_schema(
    tools: Option<&Vec<Json>>,
    tool_choice: Option<&Json>,
    parallel_tool_calls: Option<bool>,
) -> (schema: Option<String>)
    ensures
        schema.deep_view() == schema_to_convert(
            option_values(tools),
            tool_choice.deep_view(),
            parallel_tool_calls,
        ),
{
    let parallel = match parallel_tool_calls {
        Some(parallel) => parallel,
        None => true,
    };
    match parse_declarations(tools, tool_choice) {
        Err(_) => None,
        Ok((pending, choice)) => {
            if pending.len() == 0 || matches!(choice, ToolChoice::Never) {
                return None;
            }
            match envelope_schema(&pending, parallel, &choice) {
                Some(schema) => Some(json_to_string(&schema)),
                None => None,
            }
        },
    }
}

/// Reads and checks `tools`, `tool_choice` and `parallel_tool_calls`.
///
/// `converted` is the grammar made from the schema that [`tools_schema`] gives,
/// or the message of the failed conversion; it is not looked at where that gives
/// none. A failed conversion refuses the request only where a tool asked for
/// strict mode.
pub fn parse_tools(
    tools: Option<&Vec<Json>>,
    tool_choice: Option<&Json>,
    parallel_tool_calls: Option<bool>,
    converted: Result<String, String>,
) -> (read: Result<ToolRequest, String>)
    ensures
        match read {
            Ok(request) => read_tools(
                option_values(tools),
                tool_choice.deep_view(),
                parallel_tool_calls,
                text_result(converted),
            ) == Ok::<ToolRequestView, Seq<char>>(request@),
            Err(message) => read_tools(
                option_values(tools),
                tool_choice.deep_view(),
                parallel_tool_calls,
                text_result(converted),
            ) == Err::<ToolRequestView, Seq<char>>(message@),
        },
{
    let parallel = match parallel_tool_calls {
        Some(parallel) => parallel,
        None => true,
    };
    let (pending, choice) = match parse_declarations(tools, tool_choice) {
        Ok(declared) => declared,
        Err(message) => {
            return Err(message);
        },
    };
    if pending.len() == 0 || matches!(choice, ToolChoice::Never) {
        return Ok(
            ToolRequest {
                tools: settled(&pending, false),
                choice,
                parallel_tool_calls: parallel,
                grammar: None,
            },
        );
    }
    let grammar = match envelope_schema(&pending, parallel, &choice) {
        None => Err("`tools` cannot form a grammar".to_owned()),
        Some(_) => match converted {
            Ok(grammar) => Ok(grammar),
            Err(error) => Err(
                "`tools` schema is not a supported JSON schema: ".to_owned().concat(error.as_str()),
            ),
        },
    };
    match grammar {
        Ok(grammar) => Ok(
            ToolRequest {
                tools: settled(&pending, true),
                choice,
                parallel_tool_calls: parallel,
                grammar: Some(grammar),
            },
        ),
        Err(message) => {
            if any_strict(&pending) {
                return Err(message);
            }
            Ok(
                ToolRequest {
                    tools: settled(&pending, false),
                    choice,
                    parallel_tool_calls: parallel,
                    grammar: None,
                },
            )
        },
    }
}

/// The request declares a tool of that name.
pub open spec fn has_function(tools: Seq<FunctionToolView>, name: Seq<char>) -> bool {
    exists|i: int| 0 <= i < tools.len() && (#[trigger] tools[i]).name == name
}

/// One call of the model, or why it is refused.
pub open spec fn read_call(call: JsonView, request: ToolRequestView) -> Result<
    ModelCallView,
    Seq<char>,
> {
    match text_field(call, "name"@) {
        None => Err("a tool call requires a string `name`"@),
        Some(name) => if !has_function(request.tools, name) {
            Err("the model named `"@ + name + "`, which is not a declared tool"@)
        } else if request.choice is Function && request.choice->Function_0 != name {
            Err(
                "`tool_choice` requires `"@ + request.choice->Function_0
                    + "` but the model named `"@ + name + "`"@,
            )
        } else {
            match field(call, "arguments"@) {
                Some(JsonView::Object(arguments)) => Ok(
                    ModelCallView { name, arguments: json_text(JsonView::Object(arguments)) },
                ),
                _ => Err("tool call `"@ + name + "` requires an object `arguments`"@),
            }
        },
    }
}

/// Reads one call of the envelope.
pub open spec fn call_reader(request: ToolRequestView) -> spec_fn(JsonView) -> Result<
    ModelCallView,
    Seq<char>,
> {
    |call: JsonView| read_call(call, request)
}

/// The turn that an envelope holds, or why it is refused.
pub open spec fn read_turn(value: JsonView, request: ToolRequestView) -> Result<
    ModelTurnView,
    Seq<char>,
> {
    match field(value, "calls"@) {
        Some(JsonView::Array(calls)) => if calls.len() == 0 {
            Err("the tool envelope `calls` must not be empty"@)
        } else if !request.parallel_tool_calls && calls.len() > 1 {
            Err(
                "the model returned "@ + decimal(calls.len())
                    + " calls but `parallel_tool_calls` is false"@,
            )
        } else {
            match try_map(call_reader(request), calls) {
                Ok(decoded) => Ok(ModelTurnView::Calls(decoded)),
                Err(error) => Err(error),
            }
        },
        Some(_) => Err("the tool envelope `calls` must be an array"@),
        None => match text_field(value, "message"@) {
            Some(text) => if request.choice is Auto {
                Ok(ModelTurnView::Message(text))
            } else {
                Err("`tool_choice` requires a tool call, but the model answered with text"@)
            },
            None => Err("the model output is not the expected tool envelope"@),
        },
    }
}

/// What a turn is read as is what the contract speaks of.
pub open spec fn same_turn(
    read: Result<ModelTurn, String>,
    expected: Result<ModelTurnView, Seq<char>>,
) -> bool {
    match read {
        Ok(turn) => expected == Ok::<ModelTurnView, Seq<char>>(turn@),
        Err(message) => expected == Err::<ModelTurnView, Seq<char>>(message@),
    }
}

fn decode_call(call: &Json, request: &ToolRequest) -> (read: Result<ModelCall, String>)
    ensures
        match read {
            Ok(decoded) => read_call(call@, request@) == Ok::<ModelCallView, Seq<char>>(decoded@),
            Err(message) => read_call(call@, request@) == Err::<ModelCallView, Seq<char>>(message@),
        },
{
    let name = match call.get_str("name") {
        Some(name) => name,
        None => {
            return Err("a tool call requires a string `name`".to_owned());
        },
    };
    let mut declared = false;
    let size: usize = request.tools.len();
    for i in 0..size
        invariant
            size == request.tools@.len(),
            declared <==> exists|j: int| 0 <= j < i && (#[trigger] request@.tools[j]).name == name@,
    {
        if same_text(request.tools[i].name.as_str(), name) {
            assert(request@.tools[i as int].name == name@);
            declared = true;
        }
    }
    if !declared {
        return Err(
            "the model named `".to_owned().concat(name).concat("`, which is not a declared tool"),
        );
    }
    if let ToolChoice::Function(required) = &request.choice {
        if !same_text(required.as_str(), name) {
            return Err(
                "`tool_choice` requires `".to_owned().concat(required.as_str()).concat(
                    "` but the model named `",
                ).concat(name).concat("`"),
            );
        }
    }
    match call.get("arguments") {
        Some(arguments) => match arguments {
            Json::Object(_) => Ok(
                ModelCall { name: name.to_owned(), arguments: json_to_string(arguments) },
            ),
            _ => Err(
                "tool call `".to_owned().concat(name).concat("` requires an object `arguments`"),
            ),
        },
        None => Err(
            "tool call `".to_owned().concat(name).concat("` requires an object `arguments`"),
        ),
    }
}

/// The turn that the parsed output of the model holds. `request` supplies the
/// declared names, the choice and the limit on parallel calls.
pub fn decode_turn(value: &Json, request: &ToolRequest) -> (read: Result<ModelTurn, String>)
    ensures
        same_turn(read, read_turn(value@, request@)),
{
    match value.get("calls") {
        Some(Json::Array(calls)) => {
            let ghost views = values_view(calls@);
            proof {
                let list = Json::Array(*calls);
                assert(list@->Array_0 =~= views);
                assert(field(value@, "calls"@) == Some(list@));
            }
            if calls.len() == 0 {
                return Err("the tool envelope `calls` must not be empty".to_owned());
            }
            if !request.parallel_tool_calls && calls.len() > 1 {
                return Err(
                    "the model returned ".to_owned().concat(
                        decimal_text(calls.len() as u64).as_str(),
                    ).concat(" calls but `parallel_tool_calls` is false"),
                );
            }
            let ghost f = call_reader(request@);
            let mut decoded: Vec<ModelCall> = Vec::new();
            assert(calls_view(decoded@) =~= Seq::empty());
            assert(views.take(0) =~= Seq::empty());
            let size: usize = calls.len();
            for i in 0..size
                invariant
                    size == calls@.len(),
                    size > 0,
                    request.parallel_tool_calls || size <= 1,
                    views == values_view(calls@),
                    field(value@, "calls"@) == Some(JsonView::Array(views)),
                    f == call_reader(request@),
                    try_map(f, views.take(i as int)) == Ok::<Seq<ModelCallView>, Seq<char>>(
                        calls_view(decoded@),
                    ),
            {
                proof {
                    lemma_try_map_step(f, views, i as int);
                }
                match decode_call(&calls[i], request) {
                    Ok(call) => {
                        let ghost before = calls_view(decoded@);
                        decoded.push(call);
                        assert(calls_view(decoded@) =~= before.push(call@));
                    },
                    Err(message) => {
                        return Err(message);
                    },
                }
            }
            assert(views.take(size as int) =~= views);
            Ok(ModelTurn::Calls(decoded))
        },
        Some(_) => Err("the tool envelope `calls` must be an array".to_owned()),
        None => match value.get_str("message") {
            Some(text) => if let ToolChoice::Auto = &request.choice {
                Ok(ModelTurn::Message(text.to_owned()))
            } else {
                Err(
                    "`tool_choice` requires a tool call, but the model answered with text".to_owned(),
                )
            },
            None => Err("the model output is not the expected tool envelope".to_owned()),
        },
    }
}

/// The turn that the output text of the model holds: the envelope is read from
/// the text without the white space around it.
pub fn parse_turn(text: &str, request: &ToolRequest) -> (read: Result<ModelTurn, String>)
    ensures
        same_turn(
            read,
            match json_from_text(trimmed(text@)) {
                Ok(value) => read_turn(value, request@),
                Err(error) => Err("the model did not produce the tool envelope: "@ + error),
            },
        ),
{
    match json_from_str(trim(text).as_str()) {
        Ok(value) => decode_turn(&value, request),
        Err(error) => Err(
            "the model did not produce the tool envelope: ".to_owned().concat(error.as_str()),
        ),
    }
}

/// A turn never calls anything but declared tools: every call names one, the one
/// that was required where the choice names a function, and there is only one call
/// where calls are not parallel.
pub proof fn law_calls_are_declared(value: JsonView, request: ToolRequestView, place: int)
    requires
        read_turn(value, request) matches Ok(ModelTurnView::Calls(calls)) && 0 <= place
            < calls.len(),
    ensures
        ({
            let calls = read_turn(value, request)->Ok_0->Calls_0;
            &&& has_function(request.tools, calls[place].name)
            &&& request.choice matches ToolChoiceView::Function(name) ==> calls[place].name == name
            &&& !request.parallel_tool_calls ==> calls.len() == 1
        }),
{
    let items = field(value, "calls"@)->0->Array_0;
    lemma_try_map_ok(call_reader(request), items);
    let calls = read_turn(value, request)->Ok_0->Calls_0;
    assert(call_reader(request)(items[place]) == Ok::<ModelCallView, Seq<char>>(calls[place]));
}

/// A turn has at least one call or is a message, and it is a message only where the
/// choice leaves that open.
pub proof fn law_required_choice_gets_a_call(value: JsonView, request: ToolRequestView)
    ensures
        match read_turn(value, request) {
            Ok(ModelTurnView::Message(_)) => request.choice is Auto,
            Ok(ModelTurnView::Calls(calls)) => calls.len() > 0,
            Err(_) => true,
        },
{
    if field(value, "calls"@) matches Some(JsonView::Array(_)) {
        lemma_try_map_ok(call_reader(request), field(value, "calls"@)->0->Array_0);
    }
}

/// The strict mode that is echoed is the truth: a tool is strict only where its
/// calls are constrained by a grammar, and a request that asked for strict mode is
/// never accepted without it.
pub proof fn law_strict_means_constrained(
    tools: Option<Seq<JsonView>>,
    choice: Option<JsonView>,
    parallel_tool_calls: Option<bool>,
    converted: Result<Seq<char>, Seq<char>>,
    place: int,
)
    requires
        read_tools(tools, choice, parallel_tool_calls, converted) matches Ok(request) && 0 <= place
            < request.tools.len(),
    ensures
        ({
            let request = read_tools(tools, choice, parallel_tool_calls, converted)->Ok_0;
            let pending = read_declarations(tools, choice)->Ok_0.0;
            &&& request.tools[place].strict ==> request.grammar is Some
            &&& request.offers_tools() && pending[place].strict_requested == Some(true)
                ==> request.tools[place].strict
            &&& pending[place].strict_requested == Some(false) ==> !request.tools[place].strict
        }),
{
    let pending = read_declarations(tools, choice)->Ok_0.0;
    if pending[place].strict_requested == Some(true) {
        assert(asks_strict(pending));
    }
}

/// A request that offers no tool is echoed as a text request, whatever it
/// declared.
pub proof fn law_no_offer_is_a_text_echo(request: ToolRequestView)
    requires
        request.choice is Never || request.tools.len() == 0,
    ensures
        request.echo() == text_only_echo(),
        !request.echo().parallel_tool_calls,
        request.echo().tool_choice == JsonView::Str("none"@),
        request.echo().tools == JsonView::Array(Seq::empty()),
        request.system_note() is None,
{
}

} // verus!
