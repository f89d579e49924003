//! The `text` of a request: the output format and the verbosity.
//!
//! A format with a strict schema constrains the output by a grammar that is made
//! from the schema. The verbosity is a directive in the prompt that a model can
//! ignore.

use vstd::prelude::*;

use crate::json::{Json, JsonView};
use crate::json_text::{json_text, json_to_string};
use crate::records::{
    bool_fault,
    check_optional_bool,
    check_optional_text,
    check_text,
    lemma_record_is_sound,
    optional_bool,
    optional_text,
    optional_value,
    read_record,
    record_fields,
    required_text,
    some_bool,
    some_text,
    some_value,
    text_fault,
    the_text,
    unless_null,
    Record,
    RecordModel,
};
use crate::responses_tools::text_result;
use crate::text::{characters, occurs_at, same_text};

verus! {

/// The `text` object of a request.
#[derive(Debug)]
pub struct ResponseTextConfig {
    pub format: Option<TextFormat>,
    pub verbosity: Option<Json>,
}

/// The meaning of a [`ResponseTextConfig`].
pub struct TextConfigView {
    pub format: Option<TextFormatView>,
    pub verbosity: Option<JsonView>,
}

impl View for ResponseTextConfig {
    type V = TextConfigView;

    open spec fn view(&self) -> TextConfigView {
        TextConfigView {
            format: match self.format {
                Some(format) => Some(format@),
                None => None,
            },
            verbosity: self.verbosity.deep_view(),
        }
    }
}

/// The `text.format` object. All but `type` belongs to the type `json_schema`.
#[derive(Debug)]
pub struct TextFormat {
    pub kind: String,
    pub name: Option<String>,
    pub description: Option<String>,
    pub schema: Option<Json>,
    pub strict: Option<bool>,
}

/// The meaning of a [`TextFormat`].
pub struct TextFormatView {
    pub kind: Seq<char>,
    pub name: Option<Seq<char>>,
    pub description: Option<Seq<char>>,
    pub schema: Option<JsonView>,
    pub strict: Option<bool>,
}

impl View for TextFormat {
    type V = TextFormatView;

    open spec fn view(&self) -> TextFormatView {
        TextFormatView {
            kind: self.kind@,
            name: self.name.deep_view(),
            description: self.description.deep_view(),
            schema: self.schema.deep_view(),
            strict: self.strict,
        }
    }
}

/// The fault of a `text.format` field.
pub open spec fn format_fault(key: Seq<char>, value: JsonView) -> Option<Seq<char>> {
    if key == "type"@ {
        text_fault(value)
    } else if key == "schema"@ {
        None
    } else if key == "strict"@ {
        unless_null(value, bool_fault(value))
    } else {
        unless_null(value, text_fault(value))
    }
}

/// The record of a `text.format`.
pub open spec fn format_model() -> RecordModel {
    RecordModel {
        name: "TextFormat"@,
        fields: seq!["type"@, "name"@, "description"@, "schema"@, "strict"@],
        listed: "one of `type`, `name`, `description`, `schema`, `strict`"@,
        required: seq!["type"@],
        closed: true,
        fault: |key: Seq<char>, value: JsonView| format_fault(key, value),
    }
}

impl Record for TextFormat {
    open spec fn model() -> RecordModel {
        format_model()
    }

    fn name() -> (name: &'static str) {
        "TextFormat"
    }

    fn fields() -> (fields: Vec<&'static str>) {
        let fields = vec!["type", "name", "description", "schema", "strict"];
        assert(fields.deep_view() =~= format_model().fields);
        fields
    }

    fn listed() -> (listed: &'static str) {
        "one of `type`, `name`, `description`, `schema`, `strict`"
    }

    fn closed() -> (closed: bool) {
        true
    }

    fn required() -> (required: Vec<&'static str>) {
        let required = vec!["type"];
        assert(required.deep_view() =~= format_model().required);
        required
    }

    fn fault(key: &str, value: &Json) -> (fault: Option<String>) {
        if same_text(key, "type") {
            check_text(value)
        } else if same_text(key, "schema") {
            None
        } else if same_text(key, "strict") {
            check_optional_bool(value)
        } else {
            check_optional_text(value)
        }
    }
}

/// The format of a record.
pub open spec fn format_of(fields: Map<Seq<char>, JsonView>) -> TextFormatView {
    TextFormatView {
        kind: the_text(fields, "type"@),
        name: some_text(fields, "name"@),
        description: some_text(fields, "description"@),
        schema: some_value(fields, "schema"@),
        strict: some_bool(fields, "strict"@),
    }
}

/// The format that a value is read as.
pub open spec fn read_format(value: JsonView) -> Result<TextFormatView, Seq<char>> {
    match record_fields(format_model(), value) {
        Ok(fields) => Ok(format_of(fields)),
        Err(fault) => Err(fault),
    }
}

fn decode_format(value: &Json) -> (read: Result<TextFormat, String>)
    ensures
        match read {
            Ok(format) => read_format(value@) == Ok::<TextFormatView, Seq<char>>(format@),
            Err(fault) => read_format(value@) == Err::<TextFormatView, Seq<char>>(fault@),
        },
{
    match read_record::<TextFormat>(value) {
        Ok(fields) => Ok(
            TextFormat {
                kind: required_text(&fields, "type"),
                name: optional_text(&fields, "name"),
                description: optional_text(&fields, "description"),
                schema: optional_value(&fields, "schema"),
                strict: optional_bool(&fields, "strict"),
            },
        ),
        Err(fault) => Err(fault),
    }
}

/// The fault of a `text` field.
pub open spec fn config_fault(key: Seq<char>, value: JsonView) -> Option<Seq<char>> {
    if key == "format"@ {
        if value is Null {
            None
        } else {
            match read_format(value) {
                Ok(_) => None,
                Err(fault) => Some(fault),
            }
        }
    } else {
        None
    }
}

/// The record of a `text` object.
pub open spec fn config_model() -> RecordModel {
    RecordModel {
        name: "ResponseTextConfig"@,
        fields: seq!["format"@, "verbosity"@],
        listed: "`format` or `verbosity`"@,
        required: Seq::empty(),
        closed: true,
        fault: |key: Seq<char>, value: JsonView| config_fault(key, value),
    }
}

impl Record for ResponseTextConfig {
    open spec fn model() -> RecordModel {
        config_model()
    }

    fn name() -> (name: &'static str) {
        "ResponseTextConfig"
    }

    fn fields() -> (fields: Vec<&'static str>) {
        let fields = vec!["format", "verbosity"];
        assert(fields.deep_view() =~= config_model().fields);
        fields
    }

    fn listed() -> (listed: &'static str) {
        "`format` or `verbosity`"
    }

    fn closed() -> (closed: bool) {
        true
    }

    fn required() -> (required: Vec<&'static str>) {
        let required: Vec<&'static str> = Vec::new();
        assert(required.deep_view() =~= config_model().required);
        required
    }

    fn fault(key: &str, value: &Json) -> (fault: Option<String>) {
        if same_text(key, "format") {
            if let Json::Null = value {
                return None;
            }
            match decode_format(value) {
                Ok(_) => None,
                Err(fault) => Some(fault),
            }
        } else {
            None
        }
    }
}

/// The `text` object of a record.
pub open spec fn config_of(fields: Map<Seq<char>, JsonView>) -> TextConfigView {
    TextConfigView {
        format: match some_value(fields, "format"@) {
            Some(format) => Some(read_format(format)->Ok_0),
            None => None,
        },
        verbosity: some_value(fields, "verbosity"@),
    }
}

/// The `text` object that a value is read as.
pub open spec fn read_text_config(value: JsonView) -> Result<TextConfigView, Seq<char>> {
    match record_fields(config_model(), value) {
        Ok(fields) => Ok(config_of(fields)),
        Err(fault) => Err(fault),
    }
}

/// Reads a `text` object.
pub fn decode_text_config(value: &Json) -> (read: Result<ResponseTextConfig, String>)
    ensures
        match read {
            Ok(config) => read_text_config(value@) == Ok::<TextConfigView, Seq<char>>(config@),
            Err(fault) => read_text_config(value@) == Err::<TextConfigView, Seq<char>>(fault@),
        },
{
    match read_record::<ResponseTextConfig>(value) {
        Ok(fields) => {
            proof {
                lemma_record_is_sound(config_model(), value@);
                if fields@.contains_key("format"@) {
                    assert((config_model().fault)("format"@, fields@["format"@]) is None);
                }
            }
            let format = match optional_value(&fields, "format") {
                Some(format) => match decode_format(&format) {
                    Ok(format) => Some(format),
                    Err(_) => None,
                },
                None => None,
            };
            Ok(ResponseTextConfig { format, verbosity: optional_value(&fields, "verbosity") })
        },
        Err(fault) => Err(fault),
    }
}

/// The verbosity of a request. `medium` is the default and adds no directive.
#[derive(Clone, Copy, Debug, Eq, PartialEq, Structural)]
pub enum Verbosity {
    Low,
    Medium,
    High,
}

impl Default for Verbosity {
    fn default() -> (verbosity: Verbosity)
        ensures
            verbosity is Medium,
    {
        Verbosity::Medium
    }
}

impl Verbosity {
    /// The request value of a verbosity.
    pub open spec fn text(self) -> Seq<char> {
        match self {
            Verbosity::Low => "low"@,
            Verbosity::Medium => "medium"@,
            Verbosity::High => "high"@,
        }
    }

    /// The request value of this verbosity.
    pub fn as_str(self) -> (value: &'static str)
        ensures
            value@ == self.text(),
    {
        match self {
            Verbosity::Low => "low",
            Verbosity::Medium => "medium",
            Verbosity::High => "high",
        }
    }

    /// The directive of a verbosity.
    pub open spec fn note(self) -> Option<Seq<char>> {
        match self {
            Verbosity::Low => Some(
                "Be concise. Give the shortest complete answer and omit explanation."@,
            ),
            Verbosity::High => Some(
                "Be thorough. Give a complete answer with explanation and supporting detail."@,
            ),
            Verbosity::Medium => None,
        }
    }

    /// The system directive of this verbosity. `medium` has none.
    pub fn directive(self) -> (directive: Option<&'static str>)
        ensures
            directive.deep_view() == self.note(),
    {
        match self {
            Verbosity::Low => Some(
                "Be concise. Give the shortest complete answer and omit explanation.",
            ),
            Verbosity::High => Some(
                "Be thorough. Give a complete answer with explanation and supporting detail.",
            ),
            Verbosity::Medium => None,
        }
    }

    /// The verbosity of a request value. A message names the field.
    pub fn decode(value: &Json) -> (read: Result<Verbosity, String>)
        ensures
            match read {
                Ok(verbosity) => read_verbosity(value@) == Ok::<Verbosity, Seq<char>>(verbosity),
                Err(message) => read_verbosity(value@) == Err::<Verbosity, Seq<char>>(message@),
            },
    {
        match value {
            Json::Str(text) => {
                let text = text.as_str();
                if same_text(text, "low") {
                    Ok(Verbosity::Low)
                } else if same_text(text, "medium") {
                    Ok(Verbosity::Medium)
                } else if same_text(text, "high") {
                    Ok(Verbosity::High)
                } else {
                    Err(
                        "`text.verbosity` `".to_owned().concat(text).concat(
                            "` is not supported; use low, medium, high",
                        ),
                    )
                }
            },
            _ => Err("`text.verbosity` must be one of low, medium, high".to_owned()),
        }
    }
}

/// The verbosity that a value is read as, or why it is refused.
pub open spec fn read_verbosity(value: JsonView) -> Result<Verbosity, Seq<char>> {
    match value {
        JsonView::Str(text) => if text == "low"@ {
            Ok(Verbosity::Low)
        } else if text == "medium"@ {
            Ok(Verbosity::Medium)
        } else if text == "high"@ {
            Ok(Verbosity::High)
        } else {
            Err("`text.verbosity` `"@ + text + "` is not supported; use low, medium, high"@)
        },
        _ => Err("`text.verbosity` must be one of low, medium, high"@),
    }
}

/// What the `text` object of a request comes to.
#[derive(Debug)]
pub struct TextEffect {
    pub format: StructuredFormat,
    /// The effective verbosity: `medium` where the request has none.
    pub verbosity: Verbosity,
}

/// The meaning of a [`TextEffect`].
pub struct TextEffectView {
    pub format: StructuredFormatView,
    pub verbosity: Verbosity,
}

impl View for TextEffect {
    type V = TextEffectView;

    open spec fn view(&self) -> TextEffectView {
        TextEffectView { format: self.format@, verbosity: self.verbosity }
    }
}

/// What `text.format` comes to.
#[derive(Debug)]
pub struct StructuredFormat {
    /// The generated text has to be JSON.
    pub json_required: bool,
    /// The grammar that constrains the output.
    pub grammar: Option<String>,
}

/// The meaning of a [`StructuredFormat`].
pub struct StructuredFormatView {
    pub json_required: bool,
    pub grammar: Option<Seq<char>>,
}

impl View for StructuredFormat {
    type V = StructuredFormatView;

    open spec fn view(&self) -> StructuredFormatView {
        StructuredFormatView {
            json_required: self.json_required,
            grammar: self.grammar.deep_view(),
        }
    }
}

/// The format of plain text.
pub open spec fn plain_format() -> StructuredFormatView {
    StructuredFormatView { json_required: false, grammar: None }
}

impl Default for StructuredFormat {
    fn default() -> (format: StructuredFormat)
        ensures
            format@ == plain_format(),
    {
        StructuredFormat { json_required: false, grammar: None }
    }
}

impl Default for TextEffect {
    fn default() -> (effect: TextEffect)
        ensures
            effect@ == (TextEffectView { format: plain_format(), verbosity: Verbosity::Medium }),
    {
        TextEffect { format: StructuredFormat::default(), verbosity: Verbosity::Medium }
    }
}

/// The most characters of a format name.
const FORMAT_NAME_MAX_CHARS: usize = 64;

/// A character of a format name.
pub open spec fn is_name_char(c: char) -> bool {
    'a' <= c <= 'z' || 'A' <= c <= 'Z' || '0' <= c <= '9' || c == '_' || c == '-'
}

/// A format name: 1 to 64 characters of `a-z`, `A-Z`, `0-9`, `_` and `-`.
pub open spec fn is_format_name(name: Seq<char>) -> bool {
    0 < name.len() <= 64 && forall|i: int| 0 <= i < name.len() ==> is_name_char(#[trigger] name[i])
}

/// A format that carries more than its type.
pub open spec fn has_schema_members(format: TextFormatView) -> bool {
    format.name is Some || format.description is Some || format.schema is Some
        || format.strict is Some
}

/// The wording of a format with members that its type does not have.
pub open spec fn members_message(kind: Seq<char>) -> Seq<char> {
    "`text.format` `"@ + kind
        + "` does not accept `name`, `description`, `schema`, or `strict`"@
}

/// Why a format is refused before any grammar is made.
pub open spec fn format_refusal(format: TextFormatView) -> Option<Seq<char>> {
    if format.kind == "text"@ || format.kind == "json_object"@ {
        if has_schema_members(format) {
            Some(members_message(format.kind))
        } else {
            None
        }
    } else if format.kind == "json_schema"@ {
        match format.name {
            None => Some("`text.format` requires `name` for type `json_schema`"@),
            Some(name) => if !is_format_name(name) {
                Some(
                    "`text.format.name` must be 1 to 64 characters of a-z, A-Z, 0-9, `_`, or `-`"@,
                )
            } else {
                match format.schema {
                    None => Some("`text.format` requires `schema` for type `json_schema`"@),
                    Some(JsonView::Object(_)) => None,
                    Some(_) => Some("`text.format.schema` must be a JSON object"@),
                }
            },
        }
    } else {
        Some(
            "`text.format.type` `"@ + format.kind
                + "` is not supported; use `text`, `json_object`, or `json_schema`"@,
        )
    }
}

/// The text of the schema that the grammar of a format is made from: any object
/// for `json_object`, and the given schema for a strict `json_schema`.
pub open spec fn format_schema_text(format: TextFormatView) -> Option<Seq<char>> {
    if format_refusal(format) is Some {
        None
    } else if format.kind == "json_object"@ {
        Some("{\"type\":\"object\"}"@)
    } else if format.kind == "json_schema"@ && format.strict == Some(true) {
        Some(json_text(format.schema->0))
    } else {
        None
    }
}

/// What a format comes to, or why it is refused. `converted` is what came of the
/// schema that its grammar is made from.
pub open spec fn read_structured(
    format: TextFormatView,
    converted: Result<Seq<char>, Seq<char>>,
) -> Result<StructuredFormatView, Seq<char>> {
    match format_refusal(format) {
        Some(message) => Err(message),
        None => if format.kind == "text"@ {
            Ok(plain_format())
        } else if format_schema_text(format) is None {
            Ok(StructuredFormatView { json_required: true, grammar: None })
        } else {
            match converted {
                Ok(grammar) => Ok(
                    StructuredFormatView { json_required: true, grammar: Some(grammar) },
                ),
                Err(error) => Err(
                    if format.kind == "json_object"@ {
                        "`text.format.type` `json_object` failed: "@ + error
                    } else {
                        "`text.format.schema` is not a supported JSON schema: "@ + error
                    },
                ),
            }
        },
    }
}

/// The format of a `text` object.
pub open spec fn format_in(text: Option<TextConfigView>) -> Option<TextFormatView> {
    match text {
        Some(text) => text.format,
        None => None,
    }
}

/// What the format of a `text` object comes to, or why it is refused.
pub open spec fn format_effect(
    text: Option<TextConfigView>,
    converted: Result<Seq<char>, Seq<char>>,
) -> Result<StructuredFormatView, Seq<char>> {
    match format_in(text) {
        Some(format) => read_structured(format, converted),
        None => Ok(plain_format()),
    }
}

/// The verbosity of a `text` object, or why it is refused.
pub open spec fn verbosity_effect(text: Option<TextConfigView>) -> Result<Verbosity, Seq<char>> {
    match text {
        Some(text) => match text.verbosity {
            Some(value) => read_verbosity(value),
            None => Ok(Verbosity::Medium),
        },
        None => Ok(Verbosity::Medium),
    }
}

/// What a `text` object comes to, or why it is refused. The verbosity is looked at
/// before the format.
pub open spec fn text_effect(
    text: Option<TextConfigView>,
    converted: Result<Seq<char>, Seq<char>>,
) -> Result<TextEffectView, Seq<char>> {
    match verbosity_effect(text) {
        Err(message) => Err(message),
        Ok(verbosity) => match format_effect(text, converted) {
            Err(message) => Err(message),
            Ok(format) => Ok(TextEffectView { format, verbosity }),
        },
    }
}

/// The view of an optional `text` object.
pub open spec fn option_config(text: Option<&ResponseTextConfig>) -> Option<TextConfigView> {
    match text {
        Some(text) => Some(text@),
        None => None,
    }
}

fn validate_name(name: &str) -> (valid: bool)
    ensures
        valid == is_format_name(name@),
{
    let chars = characters(name);
    let size: usize = chars.len();
    if size == 0 || size > FORMAT_NAME_MAX_CHARS {
        return false;
    }
    for i in 0..size
        invariant
            size == chars@.len(),
            chars@ == name@,
            forall|j: int| 0 <= j < i ==> is_name_char(#[trigger] name@[j]),
    {
        let c = chars[i];
        let allowed = ('a' <= c && c <= 'z') || ('A' <= c && c <= 'Z') || ('0' <= c && c <= '9')
            || c == '_' || c == '-';
        if !allowed {
            assert(!is_name_char(name@[i as int]));
            return false;
        }
    }
    true
}

/// Why a format is refused before any grammar is made.
fn refuse_format(format: &TextFormat) -> (message: Option<String>)
    ensures
        message.deep_view() == format_refusal(format@),
{
    let kind = format.kind.as_str();
    if same_text(kind, "text") || same_text(kind, "json_object") {
        if format.name.is_some() || format.description.is_some() || format.schema.is_some()
            || format.strict.is_some() {
            return Some(
                "`text.format` `".to_owned().concat(kind).concat(
                    "` does not accept `name`, `description`, `schema`, or `strict`",
                ),
            );
        }
        return None;
    }
    if !same_text(kind, "json_schema") {
        return Some(
            "`text.format.type` `".to_owned().concat(kind).concat(
                "` is not supported; use `text`, `json_object`, or `json_schema`",
            ),
        );
    }
    let name = match &format.name {
        Some(name) => name.as_str(),
        None => {
            return Some("`text.format` requires `name` for type `json_schema`".to_owned());
        },
    };
    if !validate_name(name) {
        return Some(
            "`text.format.name` must be 1 to 64 characters of a-z, A-Z, 0-9, `_`, or `-`".to_owned(),
        );
    }
    match &format.schema {
        None => Some("`text.format` requires `schema` for type `json_schema`".to_owned()),
        Some(Json::Object(_)) => None,
        Some(_) => Some("`text.format.schema` must be a JSON object".to_owned()),
    }
}

proof fn lemma_format_kinds()
    ensures
        "text"@ != "json_object"@,
        "text"@ != "json_schema"@,
        "json_object"@ != "json_schema"@,
{
    reveal_strlit("text");
    reveal_strlit("json_object");
    reveal_strlit("json_schema");
    assert("text"@.len() == 4 && "json_object"@.len() == 11);
    assert("json_object"@[5] == 'o' && "json_schema"@[5] == 's');
}

/// The text of the schema that the grammar of a format is made from, for
/// [`derive_format`] to take what came of it. There is none where the format is
/// refused or needs no grammar.
pub fn format_schema(text: Option<&ResponseTextConfig>) -> (schema: Option<String>)
    ensures
        schema.deep_view() == match format_in(option_config(text)) {
            Some(format) => format_schema_text(format),
            None => None,
        },
{
    let format = match text {
        Some(text) => match &text.format {
            Some(format) => format,
            None => {
                return None;
            },
        },
        None => {
            return None;
        },
    };
    if refuse_format(format).is_some() {
        return None;
    }
    let kind = format.kind.as_str();
    if same_text(kind, "json_object") {
        return Some("{\"type\":\"object\"}".to_owned());
    }
    if same_text(kind, "json_schema") {
        if let Some(strict) = format.strict {
            if strict {
                return match &format.schema {
                    Some(schema) => Some(json_to_string(schema)),
                    None => None,
                };
            }
        }
    }
    None
}

/// What `text.format` comes to. A message names the field that is refused.
///
/// `converted` is the grammar made from the schema that [`format_schema`] gives,
/// or the message of the failed conversion; it is not looked at where that gives
/// none.
pub fn derive_format(
    text: Option<&ResponseTextConfig>,
    converted: Result<String, String>,
) -> (read: Result<StructuredFormat, String>)
    ensures
        match read {
            Ok(format) => format_effect(option_config(text), text_result(converted)) == Ok::<
                StructuredFormatView,
                Seq<char>,
            >(format@),
            Err(message) => format_effect(option_config(text), text_result(converted)) == Err::<
                StructuredFormatView,
                Seq<char>,
            >(message@),
        },
{
    let format = match text {
        Some(text) => match &text.format {
            Some(format) => format,
            None => {
                return Ok(StructuredFormat::default());
            },
        },
        None => {
            return Ok(StructuredFormat::default());
        },
    };
    if let Some(message) = refuse_format(format) {
        return Err(message);
    }
    proof {
        lemma_format_kinds();
    }
    let kind = format.kind.as_str();
    if same_text(kind, "text") {
        return Ok(StructuredFormat::default());
    }
    if format_schema(text).is_none() {
        return Ok(StructuredFormat { json_required: true, grammar: None });
    }
    match converted {
        Ok(grammar) => Ok(StructuredFormat { json_required: true, grammar: Some(grammar) }),
        Err(error) => if same_text(kind, "json_object") {
            Err("`text.format.type` `json_object` failed: ".to_owned().concat(error.as_str()))
        } else {
            Err(
                "`text.format.schema` is not a supported JSON schema: ".to_owned().concat(
                    error.as_str(),
                ),
            )
        },
    }
}

/// What the `text` object of a request comes to. A message names the field that
/// is refused. `converted` is as for [`derive_format`].
pub fn derive_text(
    text: Option<&ResponseTextConfig>,
    converted: Result<String, String>,
) -> (read: Result<TextEffect, String>)
    ensures
        match read {
            Ok(effect) => text_effect(option_config(text), text_result(converted)) == Ok::<
                TextEffectView,
                Seq<char>,
            >(effect@),
            Err(message) => text_effect(option_config(text), text_result(converted)) == Err::<
                TextEffectView,
                Seq<char>,
            >(message@),
        },
{
    let verbosity = match text {
        Some(config) => match &config.verbosity {
            Some(value) => match Verbosity::decode(value) {
                Ok(verbosity) => verbosity,
                Err(message) => {
                    return Err(message);
                },
            },
            None => Verbosity::Medium,
        },
        None => Verbosity::Medium,
    };
    match derive_format(text, converted) {
        Ok(format) => Ok(TextEffect { format, verbosity }),
        Err(message) => Err(message),
    }
}

/// Every verbosity reads back from its request value.
pub proof fn law_verbosity_reads_back(verbosity: Verbosity)
    ensures
        read_verbosity(JsonView::Str(verbosity.text())) == Ok::<Verbosity, Seq<char>>(verbosity),
{
    reveal_strlit("low");
    reveal_strlit("medium");
    reveal_strlit("high");
    assert("low"@.len() == 3 && "medium"@.len() == 6 && "high"@.len() == 4);
}

/// Exactly the three request values are read as a verbosity, and every refusal names
/// the field.
pub proof fn law_verbosity_is_exact(value: JsonView)
    ensures
        read_verbosity(value) is Ok <==> exists|verbosity: Verbosity|
            value == JsonView::Str(#[trigger] verbosity.text()),
        read_verbosity(value) matches Err(message) ==> exists|at: int| #[trigger]
            occurs_at(message, "text.verbosity"@, at),
{
    if let Ok(verbosity) = read_verbosity(value) {
        assert(value == JsonView::Str(verbosity.text()));
    }
    if exists|verbosity: Verbosity| value == JsonView::Str(#[trigger] verbosity.text()) {
        let verbosity = choose|verbosity: Verbosity|
            value == JsonView::Str(#[trigger] verbosity.text());
        law_verbosity_reads_back(verbosity);
    }
    if let Err(message) = read_verbosity(value) {
        reveal_strlit("text.verbosity");
        reveal_strlit("`text.verbosity` `");
        reveal_strlit("`text.verbosity` must be one of low, medium, high");
        assert(message.subrange(1, 15) =~= "text.verbosity"@);
        assert(occurs_at(message, "text.verbosity"@, 1));
    }
}

/// A format comes with a grammar exactly when it has a schema to make one from, so
/// a strict format is never accepted without its grammar.
pub proof fn law_strict_format_has_a_grammar(
    format: TextFormatView,
    converted: Result<Seq<char>, Seq<char>>,
)
    ensures
        read_structured(format, converted) matches Ok(effect) ==> (effect.grammar is Some
            <==> format_schema_text(format) is Some),
{
    lemma_format_kinds();
}

} // verus!
