//! The generation controls of a request: `temperature`, `top_p` and
//! `max_output_tokens`.
//!
//! Each is optional; a missing one keeps its default. The response echoes the
//! number that the request sent.

use vstd::prelude::*;

use crate::json::{as_double, number_view, small_pattern, Json, JsonView, NumberView};
use crate::llm::{Generation, DEFAULT_TEMPERATURE, DEFAULT_TOP_P};
use crate::responses::{CreateRequest};
use crate::responses_shape::option_number;

verus! {

/// What the response echoes of the generation controls. A field is there only
/// when the request carried it.
#[derive(Clone, Debug, PartialEq, Default)]
pub struct GenerationEcho {
    pub temperature: Option<serde_json::Number>,
    pub top_p: Option<serde_json::Number>,
    pub max_output_tokens: Option<u32>,
}

/// The meaning of a [`GenerationEcho`].
pub struct GenerationEchoView {
    pub temperature: Option<NumberView>,
    pub top_p: Option<NumberView>,
    pub max_output_tokens: Option<u32>,
}

impl View for GenerationEcho {
    type V = GenerationEchoView;

    open spec fn view(&self) -> GenerationEchoView {
        GenerationEchoView {
            temperature: option_number(self.temperature),
            top_p: option_number(self.top_p),
            max_output_tokens: self.max_output_tokens,
        }
    }
}

/// The generation controls of one request.
#[derive(Clone, Debug)]
pub struct GenerationEffect {
    /// The values that reach the sampler and the context sizing.
    pub generation: Generation,
    /// The values that the response echoes.
    pub echo: GenerationEcho,
}

/// The meaning of a [`GenerationEffect`].
pub struct GenerationEffectView {
    pub generation: Generation,
    pub echo: GenerationEchoView,
}

impl View for GenerationEffect {
    type V = GenerationEffectView;

    open spec fn view(&self) -> GenerationEffectView {
        GenerationEffectView { generation: self.generation, echo: self.echo@ }
    }
}

/// The largest value of a control in a range from zero.
#[derive(Clone, Copy, Debug, PartialEq, Eq, Structural)]
pub enum RangeEnd {
    One,
    Two,
}

impl RangeEnd {
    /// The value as an integer.
    pub open spec fn value(self) -> u64 {
        match self {
            RangeEnd::One => 1,
            RangeEnd::Two => 2,
        }
    }

    /// The value as text.
    pub open spec fn text(self) -> Seq<char> {
        match self {
            RangeEnd::One => "1"@,
            RangeEnd::Two => "2"@,
        }
    }
}

/// A double, by its bit pattern, lies between zero and the end of the range.
/// Negative zero is zero, and patterns without the sign bit order as the values.
pub open spec fn in_range(bits: u64, end: RangeEnd) -> bool {
    bits == 0x8000_0000_0000_0000 || bits <= small_pattern(end.value())
}

/// The bit pattern of a number inside the range, or why it is refused.
pub open spec fn read_number(value: JsonView, field: Seq<char>, end: RangeEnd) -> Result<
    u64,
    Seq<char>,
> {
    match value {
        JsonView::Number(NumberView::PosInt(n)) => if n <= end.value() {
            Ok(small_pattern(n))
        } else {
            Err("`"@ + field + "` must be between 0 and "@ + end.text())
        },
        JsonView::Number(NumberView::NegInt(_)) => Err(
            "`"@ + field + "` must be between 0 and "@ + end.text(),
        ),
        JsonView::Number(NumberView::Float(bits)) => if in_range(bits, end) {
            Ok(bits)
        } else {
            Err("`"@ + field + "` must be between 0 and "@ + end.text())
        },
        _ => Err("`"@ + field + "` must be a number between 0 and "@ + end.text()),
    }
}

/// A JSON number inside the range from zero to `end`, both included: its bit
/// pattern, and the number as the double that the response echoes.
pub fn number_in_range(value: &Json, field: &str, end: RangeEnd) -> (read: Result<
    (u64, serde_json::Number),
    String,
>)
    ensures
        match read {
            Ok((bits, number)) => read_number(value@, field@, end) == Ok::<u64, Seq<char>>(bits)
                && number_view(number) == NumberView::Float(bits),
            Err(message) => read_number(value@, field@, end) == Err::<u64, Seq<char>>(message@),
        },
{
    let end_text = match end {
        RangeEnd::One => "1",
        RangeEnd::Two => "2",
    };
    let number = match value {
        Json::Number(number) => number,
        _ => {
            return Err(
                "`".to_owned().concat(field).concat("` must be a number between 0 and ").concat(
                    end_text,
                ),
            );
        },
    };
    let outside = "`".to_owned().concat(field).concat("` must be between 0 and ").concat(end_text);
    let largest: u64 = match end {
        RangeEnd::One => 1,
        RangeEnd::Two => 2,
    };
    let largest_bits: u64 = match end {
        RangeEnd::One => 0x3FF0_0000_0000_0000,
        RangeEnd::Two => 0x4000_0000_0000_0000,
    };
    match number.as_u64() {
        Some(n) => {
            if n > largest {
                return Err(outside);
            }
        },
        None => {
            if number.as_i64().is_some() {
                return Err(outside);
            }
        },
    }
    match as_double(number) {
        Some((bits, float)) => if bits == 0x8000_0000_0000_0000 || bits <= largest_bits {
            Ok((bits, float))
        } else {
            Err(outside)
        },
        None => Err(outside),
    }
}

/// The integer from one to the largest `i32` that a value is, or why it is
/// refused.
pub open spec fn read_count(value: JsonView, field: Seq<char>) -> Result<u32, Seq<char>> {
    match value {
        JsonView::Number(NumberView::PosInt(n)) => if 1 <= n <= i32::MAX {
            Ok(n as u32)
        } else {
            Err("`"@ + field + "` must be an integer between 1 and 2147483647"@)
        },
        _ => Err("`"@ + field + "` must be an integer between 1 and 2147483647"@),
    }
}

fn integer_at_least_one(value: &Json, field: &str) -> (read: Result<u32, String>)
    ensures
        match read {
            Ok(count) => read_count(value@, field@) == Ok::<u32, Seq<char>>(count),
            Err(message) => read_count(value@, field@) == Err::<u32, Seq<char>>(message@),
        },
{
    if let Json::Number(number) = value {
        if let Some(n) = number.as_i64() {
            if 1 <= n && n <= i32::MAX as i64 {
                return Ok(n as u32);
            }
        }
    }
    Err("`".to_owned().concat(field).concat("` must be an integer between 1 and 2147483647"))
}

/// An optional control, or why it is refused.
pub open spec fn read_optional_number(
    value: Option<JsonView>,
    field: Seq<char>,
    end: RangeEnd,
) -> Result<Option<u64>, Seq<char>> {
    match value {
        None => Ok(None),
        Some(value) => match read_number(value, field, end) {
            Ok(bits) => Ok(Some(bits)),
            Err(message) => Err(message),
        },
    }
}

/// An optional count, or why it is refused.
pub open spec fn read_optional_count(value: Option<JsonView>, field: Seq<char>) -> Result<
    Option<u32>,
    Seq<char>,
> {
    match value {
        None => Ok(None),
        Some(value) => match read_count(value, field) {
            Ok(count) => Ok(Some(count)),
            Err(message) => Err(message),
        },
    }
}

/// The double of a bit pattern.
pub open spec fn float_echo(bits: Option<u64>) -> Option<NumberView> {
    match bits {
        Some(bits) => Some(NumberView::Float(bits)),
        None => None,
    }
}

/// The value, or the default.
pub open spec fn or_default(bits: Option<u64>, default_bits: u64) -> u64 {
    match bits {
        Some(bits) => bits,
        None => default_bits,
    }
}

/// The generation controls of a request, or why they are refused.
pub open spec fn generation_effect(
    temperature: Option<JsonView>,
    top_p: Option<JsonView>,
    max_output_tokens: Option<JsonView>,
) -> Result<GenerationEffectView, Seq<char>> {
    match read_optional_number(temperature, "temperature"@, RangeEnd::Two) {
        Err(message) => Err(message),
        Ok(temperature) => match read_optional_number(top_p, "top_p"@, RangeEnd::One) {
            Err(message) => Err(message),
            Ok(top_p) => match read_optional_count(max_output_tokens, "max_output_tokens"@) {
                Err(message) => Err(message),
                Ok(max_output_tokens) => Ok(
                    GenerationEffectView {
                        generation: Generation {
                            temperature: or_default(temperature, DEFAULT_TEMPERATURE),
                            top_p: or_default(top_p, DEFAULT_TOP_P),
                            max_output_tokens,
                        },
                        echo: GenerationEchoView {
                            temperature: float_echo(temperature),
                            top_p: float_echo(top_p),
                            max_output_tokens,
                        },
                    },
                ),
            },
        },
    }
}

/// The generation controls of a request. A message names the field that is
/// refused.
pub fn derive_generation(request: &CreateRequest) -> (read: Result<GenerationEffect, String>)
    ensures
        match read {
            Ok(effect) => generation_effect(
                request@.temperature,
                request@.top_p,
                request@.max_output_tokens,
            ) == Ok::<GenerationEffectView, Seq<char>>(effect@),
            Err(message) => generation_effect(
                request@.temperature,
                request@.top_p,
                request@.max_output_tokens,
            ) == Err::<GenerationEffectView, Seq<char>>(message@),
        },
{
    let mut temperature: u64 = DEFAULT_TEMPERATURE;
    let mut temperature_echo: Option<serde_json::Number> = None;
    if let Some(value) = &request.temperature {
        match number_in_range(value, "temperature", RangeEnd::Two) {
            Ok((bits, number)) => {
                temperature = bits;
                temperature_echo = Some(number);
            },
            Err(message) => {
                return Err(message);
            },
        }
    }
    let mut top_p: u64 = DEFAULT_TOP_P;
    let mut top_p_echo: Option<serde_json::Number> = None;
    if let Some(value) = &request.top_p {
        match number_in_range(value, "top_p", RangeEnd::One) {
            Ok((bits, number)) => {
                top_p = bits;
                top_p_echo = Some(number);
            },
            Err(message) => {
                return Err(message);
            },
        }
    }
    let mut max_output_tokens: Option<u32> = None;
    if let Some(value) = &request.max_output_tokens {
        match integer_at_least_one(value, "max_output_tokens") {
            Ok(count) => {
                max_output_tokens = Some(count);
            },
            Err(message) => {
                return Err(message);
            },
        }
    }
    Ok(
        GenerationEffect {
            generation: Generation { temperature, top_p, max_output_tokens },
            echo: GenerationEcho {
                temperature: temperature_echo,
                top_p: top_p_echo,
                max_output_tokens,
            },
        },
    )
}

/// A request without controls keeps the defaults and echoes nothing.
pub proof fn law_no_control_keeps_the_defaults()
    ensures
        generation_effect(None, None, None) == Ok::<GenerationEffectView, Seq<char>>(
            GenerationEffectView {
                generation: Generation {
                    temperature: DEFAULT_TEMPERATURE,
                    top_p: DEFAULT_TOP_P,
                    max_output_tokens: None,
                },
                echo: GenerationEchoView {
                    temperature: None,
                    top_p: None,
                    max_output_tokens: None,
                },
            },
        ),
{
}

/// A count that is sent and accepted is the one that limits the output and the one
/// that is echoed, and every integer from one to the largest `i32` is accepted.
pub proof fn law_count_reaches_the_generation(
    temperature: Option<JsonView>,
    top_p: Option<JsonView>,
    n: u64,
)
    ensures
        ({
            let sent = Some(JsonView::Number(NumberView::PosInt(n)));
            let with_count = generation_effect(temperature, top_p, sent);
            let without = generation_effect(temperature, top_p, None);
            &&& with_count is Ok ==> 1 <= n <= i32::MAX
            &&& 1 <= n <= i32::MAX && without is Ok ==> with_count is Ok
            &&& with_count matches Ok(effect) ==> {
                &&& effect.generation.max_output_tokens == Some(n as u32)
                &&& effect.echo.max_output_tokens == Some(n as u32)
                &&& effect.generation.temperature == without->Ok_0.generation.temperature
                &&& effect.generation.top_p == without->Ok_0.generation.top_p
                &&& effect.echo.temperature == without->Ok_0.echo.temperature
                &&& effect.echo.top_p == without->Ok_0.echo.top_p
            }
        }),
{
}

/// A number that is sent and accepted is the one that the sampler gets and the one
/// that is echoed, as the double that it is. A fraction is accepted exactly from zero
/// to the end of its range: 2 for `temperature`, whose pattern is
/// `0x4000_0000_0000_0000`, and 1 for `top_p`, whose pattern is
/// `0x3FF0_0000_0000_0000`. What is not sent keeps its default and is not echoed.
pub proof fn law_numbers_reach_the_generation(
    temperature: Option<u64>,
    top_p: Option<u64>,
    max_output_tokens: Option<JsonView>,
)
    ensures
        ({
            let sent = |bits: Option<u64>|
                match bits {
                    Some(bits) => Some(JsonView::Number(NumberView::Float(bits))),
                    None => None,
                };
            let echoed = |bits: Option<u64>|
                match bits {
                    Some(bits) => Some(NumberView::Float(bits)),
                    None => None,
                };
            let fits = |bits: Option<u64>, largest: u64|
                match bits {
                    Some(bits) => bits <= largest || bits == 0x8000_0000_0000_0000,
                    None => true,
                };
            let effect = generation_effect(sent(temperature), sent(top_p), max_output_tokens);
            &&& max_output_tokens is None ==> (effect is Ok) == (fits(
                temperature,
                0x4000_0000_0000_0000,
            ) && fits(top_p, 0x3FF0_0000_0000_0000))
            &&& effect matches Ok(effect) ==> {
                &&& effect.echo.temperature == echoed(temperature)
                &&& effect.echo.top_p == echoed(top_p)
                &&& effect.generation.temperature == match temperature {
                    Some(bits) => bits,
                    None => DEFAULT_TEMPERATURE,
                }
                &&& effect.generation.top_p == match top_p {
                    Some(bits) => bits,
                    None => DEFAULT_TOP_P,
                }
            }
            &&& max_output_tokens is None && effect is Ok ==> {
                &&& effect->Ok_0.generation.max_output_tokens is None
                &&& effect->Ok_0.echo.max_output_tokens is None
            }
        }),
{
}

/// The integers 0, 1 and 2 are sent as numbers too: each is taken as the double of its
/// value, and no other integer is accepted. A value that is no number is refused.
pub proof fn law_integers_are_numbers(n: u64, temperature: JsonView, top_p: JsonView)
    ensures
        ({
            let sent = Some(JsonView::Number(NumberView::PosInt(n)));
            let warm = generation_effect(sent, None, None);
            let wide = generation_effect(None, sent, None);
            &&& (warm is Ok) == (n <= 2)
            &&& (wide is Ok) == (n <= 1)
            &&& n == 0 ==> warm->Ok_0.generation.temperature == 0
                && wide->Ok_0.generation.top_p == 0
            &&& n == 1 ==> warm->Ok_0.generation.temperature == 0x3FF0_0000_0000_0000
                && wide->Ok_0.generation.top_p == 0x3FF0_0000_0000_0000
            &&& n == 2 ==> warm->Ok_0.generation.temperature == 0x4000_0000_0000_0000
        }),
        !(temperature is Number) ==> generation_effect(Some(temperature), None, None) is Err,
        !(top_p is Number) ==> generation_effect(None, Some(top_p), None) is Err,
        temperature matches JsonView::Number(NumberView::NegInt(_)) ==> generation_effect(
            Some(temperature),
            None,
            None,
        ) is Err,
{
}

} // verus!
