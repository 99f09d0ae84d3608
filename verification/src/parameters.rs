//! The host-automatable parameter layer.
//!
//! Parameters form a densely-ordered enumeration (ordinal 0 upward). Each
//! is bound to an immutable descriptor: a range payload that converts
//! between the normalized `[0, 1]` control domain and plain engine values,
//! display strings, a step count, and a plain-domain default. Descriptors
//! are built once at startup and never mutated.

use crate::ratio::Ratio;
use crate::ratio::trunc_div;
use crate::ratio::trunc_div_i128;
use crate::text::dec_seq_i64;
use crate::text::i64_to_dec_string;
use crate::text::parse_decimal;
use crate::text::prefix_len_until;
use crate::text::ScanStop;
use crate::text::spec_parse_decimal_num;
use crate::text::spec_parse_decimal_den;
use crate::text::spec_parse_decimal_ok;
use crate::text::token_len;
use crate::utils::linear_denormalize;
use crate::utils::linear_normalize;
use crate::utils::plain_in_machine_bounds;
use crate::utils::spec_denormalize;
use crate::utils::spec_normalize_den;
use crate::utils::spec_normalize_num;
use crate::utils::spec_range;
use vstd::prelude::*;

verus! {

/// A parameter of the instrument, identified by its ordinal.
#[derive(Clone, Copy, PartialEq, Eq, Structural, Debug)]
pub enum Parameter {
    /// Pitch offset of the voice, in cents.
    Detune,
}

impl Parameter {
    /// The stable ordinal of this parameter.
    pub open spec fn spec_ordinal(self) -> u32 {
        match self {
            Parameter::Detune => 0,
        }
    }

    /// Constructs a parameter from its ordinal; out-of-range ordinals name
    /// no parameter.
    pub fn try_from(id: u32) -> (r: Result<Parameter, ()>)
        ensures
            id == 0 ==> r == Result::<Parameter, ()>::Ok(Parameter::Detune),
            id != 0 ==> r == Result::<Parameter, ()>::Err(()),
    {
        if id == 0 {
            Ok(Parameter::Detune)
        } else {
            Err(())
        }
    }

    /// Iteration over all parameters, ordinal 0 upward.
    pub fn iter() -> (r: ParamIter)
        ensures
            r.0 == 0,
    {
        ParamIter::new()
    }
}

/// Walks the parameter enumeration from ordinal 0 until the first invalid
/// ordinal.
#[derive(Clone, Copy, PartialEq, Eq, Structural, Debug)]
pub struct ParamIter(pub u32);

impl ParamIter {
    pub fn new() -> (r: ParamIter)
        ensures
            r.0 == 0,
    {
        ParamIter(0)
    }

    /// The next parameter in ordinal order, or nothing once the ordinals
    /// run out.
    pub fn next(&mut self) -> (r: Option<Parameter>)
        ensures
            old(self).0 == 0 ==> r == Some(Parameter::Detune) && final(self).0 == 1,
            old(self).0 != 0 ==> r is None && final(self).0 == old(self).0,
    {
        if self.0 == 0 {
            self.0 = 1;
            Some(Parameter::Detune)
        } else {
            None
        }
    }
}

/// Tag naming the shape of a descriptor's range payload.
#[derive(Clone, Copy, PartialEq, Eq, Structural, Debug)]
pub enum ParameterType {
    /// An inclusive integer range.
    Integer,
}

/// An inclusive integer range descriptor, converting between plain values
/// in `[min, max]` and the normalized domain.
#[derive(Clone, Copy, PartialEq, Eq, Structural, Debug)]
pub struct IntegerParameter {
    pub min: i32,
    pub max: i32,
}

impl IntegerParameter {
    /// The bounds are ordered and the normalization denominator positive.
    pub open spec fn wf(self) -> bool {
        &&& self.min <= self.max
        &&& spec_range(self.min as int, self.max as int) >= 1
    }

    /// The plain image of a normalized value, truncated toward zero to an
    /// integral value.
    pub fn denormalize(&self, normalized: Ratio) -> (r: i64)
        requires
            self.wf(),
            normalized.wf(),
            normalized.is_normalized(),
        ensures
            r == spec_denormalize(
                normalized.num as int,
                normalized.den as int,
                self.min as int,
                self.max as int,
            ),
    {
        linear_denormalize(normalized, self.min, self.max)
    }

    /// The exact normalized image of a plain value.
    pub fn normalize(&self, plain: Ratio) -> (r: Ratio)
        requires
            self.wf(),
            plain.wf(),
            plain_in_machine_bounds(plain),
        ensures
            r.wf(),
            r.num == spec_normalize_num(plain.num as int, plain.den as int, self.min as int),
            r.den == spec_normalize_den(plain.den as int, self.min as int, self.max as int),
    {
        linear_normalize(plain, self.min, self.max)
    }

    /// The plain image of a normalized value, rendered with two (zero)
    /// fractional digits.
    pub fn format(&self, normalized: Ratio) -> (r: String)
        requires
            self.wf(),
            normalized.wf(),
            normalized.is_normalized(),
        ensures
            r@ == dec_seq_i64(
                spec_denormalize(
                    normalized.num as int,
                    normalized.den as int,
                    self.min as int,
                    self.max as int,
                ),
            ) + seq!['.', '0', '0'],
    {
        let d: i64 = self.denormalize(normalized);
        let mut s = i64_to_dec_string(d);
        proof {
            reveal_strlit(".00");
        }
        s.append(".00");
        proof {
            assert(".00"@ =~= seq!['.', '0', '0']);
        }
        s
    }

    /// Takes the leading whitespace-delimited token of `string` and parses it
    /// as a decimal numeral; on success the parsed plain value is
    /// normalized, else nothing is returned and the caller keeps its prior
    /// value.
    pub fn parse(&self, string: &str) -> (r: Option<Ratio>)
        requires
            self.wf(),
        ensures
            r is Some <==> spec_parse_decimal_ok(
                string@.subrange(0, prefix_len_until(string@, ScanStop::Space)),
            ),
            r matches Some(v) ==> {
                let tok = string@.subrange(0, prefix_len_until(string@, ScanStop::Space));
                &&& v.wf()
                &&& v.num == spec_normalize_num(
                    spec_parse_decimal_num(tok),
                    spec_parse_decimal_den(tok),
                    self.min as int,
                )
                &&& v.den == spec_normalize_den(
                    spec_parse_decimal_den(tok),
                    self.min as int,
                    self.max as int,
                )
            },
    {
        let n: usize = token_len(string);
        let tok: &str = string.substring_char(0, n);
        match parse_decimal(tok) {
            Some(plain) => Some(self.normalize(plain)),
            None => None,
        }
    }
}


/// Strict lexicographic order on label text, by code point.
pub open spec fn lex_lt(a: Seq<char>, b: Seq<char>) -> bool
    decreases a.len(),
{
    if b.len() == 0 {
        false
    } else if a.len() == 0 {
        true
    } else if a[0] != b[0] {
        (a[0] as u32) < (b[0] as u32)
    } else {
        lex_lt(a.subrange(1, a.len() as int), b.subrange(1, b.len() as int))
    }
}

/// An ordered list of display labels; the plain domain is the label index.
#[derive(Clone, PartialEq, Eq, Debug)]
pub struct ListParameter {
    pub elements: Vec<String>,
}

impl ListParameter {
    /// At least two labels (the normalization denominator is the label
    /// count less one), sorted strictly ascending — what lookup by text
    /// relies on — and few enough to keep the exact arithmetic in machine
    /// integers.
    pub open spec fn wf(self) -> bool {
        &&& 2 <= self.elements.len() <= 1_000_000
        &&& forall|i: int|
            0 <= i + 1 < self.elements@.len() ==> lex_lt(
                #[trigger] self.elements@[i]@,
                self.elements@[i + 1]@,
            )
    }

    /// The label index a normalized value selects, truncated toward zero.
    pub fn denormalize(&self, normalized: Ratio) -> (r: i64)
        requires
            self.wf(),
            normalized.wf(),
            normalized.is_normalized(),
        ensures
            r == trunc_div(
                normalized.num * (self.elements@.len() - 1),
                normalized.den as int,
            ),
            0 <= r < self.elements@.len(),
    {
        let n: usize = self.elements.len();
        proof {
            assert(-10_000_000_000_000_000_000 * 1_000_000 <= (normalized.num as int) * ((n - 1)
                as int) <= 10_000_000_000_000_000_000 * 1_000_000) by (nonlinear_arith)
                requires
                    -10_000_000_000_000_000_000 <= normalized.num as int
                        <= 10_000_000_000_000_000_000,
                    0 <= (n - 1) as int <= 1_000_000,
            ;
        }
        let wide: i128 = (normalized.num as i128) * ((n - 1) as i128);
        let q: i128 = trunc_div_i128(wide, normalized.den as i128);
        proof {
            assert(wide as int <= (normalized.den as int) * ((n - 1) as int))
                by (nonlinear_arith)
                requires
                    wide as int == (normalized.num as int) * ((n - 1) as int),
                    0 <= normalized.num <= normalized.den,
                    n >= 1,
            ;
            assert((wide as int) / (normalized.den as int) <= (n - 1) as int)
                by (nonlinear_arith)
                requires
                    wide as int <= (normalized.den as int) * ((n - 1) as int),
                    normalized.den >= 1,
                    wide as int >= 0,
                    n >= 1,
            ;
        }
        q as i64
    }

    /// The exact normalized image of a plain value (the label index, or a
    /// point between indices).
    pub fn normalize(&self, plain: Ratio) -> (r: Ratio)
        requires
            self.wf(),
            plain.wf(),
            plain_in_machine_bounds(plain),
        ensures
            r.wf(),
            r.num == plain.num,
            r.den == plain.den * (self.elements@.len() - 1),
    {
        let n: usize = self.elements.len();
        proof {
            assert(1 <= (plain.den as int) * ((n - 1) as int) <= 1_000_000_000 * 1_000_000)
                by (nonlinear_arith)
                requires
                    1 <= plain.den as int <= 1_000_000_000,
                    1 <= (n - 1) as int <= 1_000_000,
            ;
        }
        Ratio { num: plain.num, den: plain.den * ((n - 1) as i64) }
    }

    /// The label a normalized value selects; an index below zero saturates
    /// to the first label, one past the end yields the empty string (no
    /// display value, not an error).
    pub fn format(&self, normalized: Ratio) -> (r: String)
        requires
            self.wf(),
            normalized.wf(),
        ensures
            r@ == spec_list_format(self.elements@, normalized),
    {
        let n: usize = self.elements.len();
        proof {
            assert(-10_000_000_000_000_000_000 * 1_000_000 <= (normalized.num as int) * ((n - 1)
                as int) <= 10_000_000_000_000_000_000 * 1_000_000) by (nonlinear_arith)
                requires
                    -10_000_000_000_000_000_000 <= normalized.num as int
                        <= 10_000_000_000_000_000_000,
                    0 <= (n - 1) as int <= 1_000_000,
            ;
        }
        let wide: i128 = (normalized.num as i128) * ((n - 1) as i128);
        let t: i128 = trunc_div_i128(wide, normalized.den as i128);
        let ix: i128 = if t < 0 {
            0
        } else {
            t
        };
        if ix < n as i128 {
            let label: String = self.elements[ix as usize].clone();
            proof {
                assert(label@ == self.elements@[ix as int]@);
            }
            label
        } else {
            String::new()
        }
    }

    /// Looks the full string up among the labels; the match's index is
    /// normalized, and an unknown label yields nothing.
    pub fn parse(&self, string: &str) -> (r: Option<Ratio>)
        requires
            self.wf(),
        ensures
            r is Some <==> exists|j: int|
                0 <= j < self.elements@.len() && #[trigger] self.elements@[j]@ == string@,
            r matches Some(v) ==> exists|j: int|
                {
                    &&& 0 <= j < self.elements@.len()
                    &&& #[trigger] self.elements@[j]@ == string@
                    &&& v == (Ratio { num: j as i64, den: (self.elements@.len() - 1) as i64 })
                },
    {
        let owned: String = string.to_owned();
        let n: usize = self.elements.len();
        let mut i: usize = 0;
        while i < n
            invariant
                0 <= i <= n,
                n == self.elements@.len(),
                owned@ == string@,
                forall|j: int| 0 <= j < i ==> #[trigger] self.elements@[j]@ != string@,
            decreases n - i,
        {
            if self.elements[i] == owned {
                return Some(Ratio { num: i as i64, den: (n - 1) as i64 });
            }
            i = i + 1;
        }
        None
    }
}

/// What the list descriptor displays for a normalized value: the selected
/// label (a negative index saturating to the first), or nothing when the
/// index runs past the labels.
pub open spec fn spec_list_format(elements: Seq<String>, normalized: Ratio) -> Seq<char> {
    let t = trunc_div(normalized.num * (elements.len() - 1), normalized.den as int);
    let ix = if t < 0 {
        0
    } else {
        t
    };
    if ix < elements.len() {
        elements[ix]@
    } else {
        Seq::empty()
    }
}

/// The one active range payload of a descriptor (the engine overlays the
/// shapes behind a tag; here the tag selects an enum variant).
#[derive(Clone, PartialEq, Eq, Debug)]
pub enum ParameterInfo {
    Int(IntegerParameter),
}

/// A parameter descriptor: the range payload under its tag, display
/// strings, the host UI step count, and the plain-domain default. Built
/// once at startup and shared read-only.
#[derive(Clone, Debug)]
pub struct PiParameter {
    pub kind: ParameterType,
    pub parameter: ParameterInfo,
    pub title: String,
    pub short_title: String,
    pub unit_name: String,
    pub step_count: i32,
    pub default_value: Ratio,
}

impl PiParameter {
    /// The tag matches the payload and the payload is well formed.
    pub open spec fn wf(self) -> bool {
        match self.parameter {
            ParameterInfo::Int(ip) => self.kind == ParameterType::Integer && ip.wf(),
        }
    }

    /// The integer payload (the only shape the registry holds today).
    pub open spec fn spec_int(self) -> IntegerParameter {
        match self.parameter {
            ParameterInfo::Int(ip) => ip,
        }
    }

    /// The plain image of a normalized value, by the active payload.
    pub fn denormalize(&self, normalized: Ratio) -> (r: i64)
        requires
            self.wf(),
            normalized.wf(),
            normalized.is_normalized(),
        ensures
            r == spec_denormalize(
                normalized.num as int,
                normalized.den as int,
                self.spec_int().min as int,
                self.spec_int().max as int,
            ),
    {
        match &self.parameter {
            ParameterInfo::Int(ip) => ip.denormalize(normalized),
        }
    }

    /// The exact normalized image of a plain value, by the active payload.
    pub fn normalize(&self, plain: Ratio) -> (r: Ratio)
        requires
            self.wf(),
            plain.wf(),
            plain_in_machine_bounds(plain),
        ensures
            r.wf(),
            r.num == spec_normalize_num(
                plain.num as int,
                plain.den as int,
                self.spec_int().min as int,
            ),
            r.den == spec_normalize_den(
                plain.den as int,
                self.spec_int().min as int,
                self.spec_int().max as int,
            ),
    {
        match &self.parameter {
            ParameterInfo::Int(ip) => ip.normalize(plain),
        }
    }

    /// The payload's rendering of a normalized value, with the unit name
    /// appended after a space.
    pub fn format(&self, normalized: Ratio) -> (r: String)
        requires
            self.wf(),
            normalized.wf(),
            normalized.is_normalized(),
        ensures
            r@ == dec_seq_i64(
                spec_denormalize(
                    normalized.num as int,
                    normalized.den as int,
                    self.spec_int().min as int,
                    self.spec_int().max as int,
                ),
            ) + seq!['.', '0', '0', ' '] + self.unit_name@,
    {
        let mut s: String = match &self.parameter {
            ParameterInfo::Int(ip) => ip.format(normalized),
        };
        proof {
            reveal_strlit(" ");
        }
        s.append(" ");
        s.append(self.unit_name.as_str());
        proof {
            assert(s@ =~= dec_seq_i64(
                spec_denormalize(
                    normalized.num as int,
                    normalized.den as int,
                    self.spec_int().min as int,
                    self.spec_int().max as int,
                ),
            ) + seq!['.', '0', '0', ' '] + self.unit_name@);
        }
        s
    }

    /// The payload's parse of a host edit: the leading token as a decimal
    /// numeral, normalized on success.
    pub fn parse(&self, string: &str) -> (r: Option<Ratio>)
        requires
            self.wf(),
        ensures
            r is Some <==> spec_parse_decimal_ok(
                string@.subrange(0, prefix_len_until(string@, ScanStop::Space)),
            ),
            r matches Some(v) ==> {
                let tok = string@.subrange(0, prefix_len_until(string@, ScanStop::Space));
                &&& v.wf()
                &&& v.num == spec_normalize_num(
                    spec_parse_decimal_num(tok),
                    spec_parse_decimal_den(tok),
                    self.spec_int().min as int,
                )
                &&& v.den == spec_normalize_den(
                    spec_parse_decimal_den(tok),
                    self.spec_int().min as int,
                    self.spec_int().max as int,
                )
            },
    {
        match &self.parameter {
            ParameterInfo::Int(ip) => ip.parse(string),
        }
    }
}

/// The detune range in cents.
pub const DETUNE_MIN: i32 = -200;

pub const DETUNE_MAX: i32 = 200;

/// Builds the parameter registry: every parameter, in ordinal order, bound
/// to its descriptor. The one entry is the detune: an integer range of
/// `[-200, 200]` cents, step count 400, default 0.
pub fn make_parameter_info() -> (r: Vec<(Parameter, PiParameter)>)
    ensures
        r@.len() == 1,
        r@[0].0 == Parameter::Detune,
        r@[0].1.wf(),
        r@[0].1.kind == ParameterType::Integer,
        r@[0].1.parameter == ParameterInfo::Int(
            IntegerParameter { min: DETUNE_MIN, max: DETUNE_MAX },
        ),
        r@[0].1.title@ == "Detune"@,
        r@[0].1.short_title@ == "Detune"@,
        r@[0].1.unit_name@ == "cent"@,
        r@[0].1.step_count == 400,
        r@[0].1.default_value == (Ratio { num: 0i64, den: 1i64 }),
{
    let detune_range = IntegerParameter { min: DETUNE_MIN, max: DETUNE_MAX };
    let descriptor = PiParameter {
        kind: ParameterType::Integer,
        parameter: ParameterInfo::Int(detune_range),
        title: String::from_str("Detune"),
        short_title: String::from_str("Detune"),
        unit_name: String::from_str("cent"),
        step_count: 400,
        default_value: Ratio { num: 0, den: 1 },
    };
    let mut r: Vec<(Parameter, PiParameter)> = Vec::new();
    r.push((Parameter::Detune, descriptor));
    r
}

} // verus!

