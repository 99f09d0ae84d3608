use pi_synth::parameters::IntegerParameter;
use pi_synth::parameters::ListParameter;
use pi_synth::parameters::ParamIter;
use pi_synth::parameters::Parameter;
use pi_synth::parameters::ParameterInfo;
use pi_synth::parameters::ParameterType;
use pi_synth::parameters::make_parameter_info;
use pi_synth::ratio::Ratio;
use pi_synth::text::i64_to_dec_string;
use pi_synth::text::parse_decimal;

fn detune_range() -> IntegerParameter {
    IntegerParameter { min: -200, max: 200 }
}

#[test]
fn parameter_try_from_ordinal() {
    assert_eq!(Parameter::try_from(0), Ok(Parameter::Detune));
    assert_eq!(Parameter::try_from(1), Err(()));
    assert_eq!(Parameter::try_from(7), Err(()));
}

#[test]
fn parameter_iteration_visits_all() {
    let mut it = Parameter::iter();
    assert_eq!(it.next(), Some(Parameter::Detune));
    assert_eq!(it.next(), None);
    assert_eq!(it.next(), None);
    let mut fresh = ParamIter::new();
    assert_eq!(fresh.next(), Some(Parameter::Detune));
}

#[test]
fn roundtrip_recovers_every_plain_value() {
    // denormalize(normalize(p)) == p across the whole detune range
    let ip = detune_range();
    for p in -200..=200i64 {
        let v = ip.normalize(Ratio { num: p, den: 1 });
        assert_eq!(ip.denormalize(v), p);
    }
}

#[test]
fn normalize_endpoints_are_exact() {
    let ip = detune_range();
    let at_min = ip.normalize(Ratio { num: -200, den: 1 });
    assert_eq!(at_min.num, 0);
    let at_max = ip.normalize(Ratio { num: 200, den: 1 });
    assert_eq!(at_max.num, at_max.den);
}

#[test]
fn denormalize_midpoint_is_zero() {
    let ip = detune_range();
    assert_eq!(ip.denormalize(Ratio { num: 1, den: 2 }), 0);
    assert_eq!(ip.denormalize(Ratio { num: 0, den: 1 }), -200);
    assert_eq!(ip.denormalize(Ratio { num: 1, den: 1 }), 200);
}

#[test]
fn format_renders_two_fraction_digits() {
    let ip = detune_range();
    assert_eq!(ip.format(Ratio { num: 1, den: 2 }), "0.00");
    assert_eq!(ip.format(Ratio { num: 0, den: 1 }), "-200.00");
    assert_eq!(ip.format(Ratio { num: 1, den: 1 }), "200.00");
}

#[test]
fn descriptor_format_appends_unit() {
    let registry = make_parameter_info();
    let (_, descriptor) = &registry[0];
    assert_eq!(descriptor.format(Ratio { num: 1, den: 2 }), "0.00 cent");
}

#[test]
fn registry_holds_the_detune_descriptor() {
    let registry = make_parameter_info();
    assert_eq!(registry.len(), 1);
    let (id, descriptor) = &registry[0];
    assert_eq!(*id, Parameter::Detune);
    assert!(matches!(descriptor.kind, ParameterType::Integer));
    assert_eq!(
        descriptor.parameter,
        ParameterInfo::Int(IntegerParameter { min: -200, max: 200 })
    );
    assert_eq!(descriptor.title, "Detune");
    assert_eq!(descriptor.short_title, "Detune");
    assert_eq!(descriptor.unit_name, "cent");
    assert_eq!(descriptor.step_count, 400);
    assert_eq!(descriptor.default_value, Ratio { num: 0, den: 1 });
}

#[test]
fn parse_accepts_integers_and_decimals() {
    let ip = detune_range();
    // "100" -> (100 + 200) / 400
    assert_eq!(ip.parse("100"), Some(Ratio { num: 300, den: 400 }));
    // "-200" -> 0 / 400
    assert_eq!(ip.parse("-200"), Some(Ratio { num: 0, den: 400 }));
    // "0.5" -> (5/10 + 200) / 400 over the common denominator 10 * 400
    assert_eq!(ip.parse("0.5"), Some(Ratio { num: 2005, den: 4000 }));
    assert_eq!(ip.parse("+3.5"), Some(Ratio { num: 2035, den: 4000 }));
    assert_eq!(ip.parse("12."), Some(Ratio { num: 212, den: 400 }));
    assert_eq!(ip.parse(".5"), Some(Ratio { num: 2005, den: 4000 }));
}

#[test]
fn parse_takes_the_leading_token() {
    let ip = detune_range();
    assert_eq!(ip.parse("100 cent"), Some(Ratio { num: 300, den: 400 }));
    assert_eq!(ip.parse("1 2"), Some(Ratio { num: 201, den: 400 }));
    // a leading space makes the first token empty
    assert_eq!(ip.parse(" 100"), None);
}

#[test]
fn parse_rejects_what_is_not_a_numeral() {
    let ip = detune_range();
    assert_eq!(ip.parse(""), None);
    assert_eq!(ip.parse("."), None);
    assert_eq!(ip.parse("-"), None);
    assert_eq!(ip.parse("x"), None);
    assert_eq!(ip.parse("12x"), None);
    assert_eq!(ip.parse("1.2.3"), None);
    assert_eq!(ip.parse("--5"), None);
}

#[test]
fn parse_accepts_exponent_numerals() {
    let ip = detune_range();
    // "1e1" denotes 10 -> (10 + 200) / 400
    assert_eq!(ip.parse("1e1"), Some(Ratio { num: 210, den: 400 }));
    assert_eq!(ip.parse("1E1"), Some(Ratio { num: 210, den: 400 }));
    assert_eq!(ip.parse("1e+2"), Some(Ratio { num: 300, den: 400 }));
    // "2.5e-3" denotes exactly 25 / 10000
    assert_eq!(
        parse_decimal("2.5e-3"),
        Some(Ratio { num: 25, den: 10_000 })
    );
    assert_eq!(parse_decimal("1e-2"), Some(Ratio { num: 1, den: 100 }));
    assert_eq!(parse_decimal("12.5e2"), Some(Ratio { num: 1250, den: 1 }));
    assert_eq!(parse_decimal("1e0"), Some(Ratio { num: 1, den: 1 }));
}

#[test]
fn parse_rejects_exponents_out_of_bounds() {
    // the exact numerator must fit in 15 digits, the denominator in 9
    assert_eq!(parse_decimal("1e16"), None);
    assert_eq!(parse_decimal("1e99"), None);
    assert_eq!(parse_decimal("1e-10"), None);
    assert_eq!(parse_decimal("1e123"), None); // three exponent digits
    assert_eq!(parse_decimal("1e"), None);
    assert_eq!(parse_decimal("1e+"), None);
    assert_eq!(parse_decimal("1e1x"), None);
    assert_eq!(parse_decimal("1e1.5"), None);
    assert_eq!(parse_decimal("inf"), None);
    assert_eq!(parse_decimal("NaN"), None);
}

#[test]
fn parse_token_ends_at_any_whitespace() {
    let ip = detune_range();
    assert_eq!(ip.parse("100\tcent"), Some(Ratio { num: 300, den: 400 }));
    assert_eq!(ip.parse("100\ncent"), Some(Ratio { num: 300, den: 400 }));
    assert_eq!(ip.parse("\t100"), None);
}

#[test]
fn parse_rejects_overlong_numerals() {
    let ip = detune_range();
    assert_eq!(ip.parse("1234567890"), None); // ten integer digits
    assert_eq!(ip.parse("123456789"), Some(Ratio { num: 123456789 + 200, den: 400 }));
    assert_eq!(ip.parse("0.1234567"), None); // seven fractional digits
    assert!(ip.parse("0.123456").is_some());
}

#[test]
fn parse_decimal_denotes_exact_rationals() {
    assert_eq!(parse_decimal("12.5"), Some(Ratio { num: 125, den: 10 }));
    assert_eq!(parse_decimal("-0.25"), Some(Ratio { num: -25, den: 100 }));
    assert_eq!(parse_decimal("42"), Some(Ratio { num: 42, den: 1 }));
    assert_eq!(parse_decimal(""), None);
}

#[test]
fn decimal_rendering_matches_the_numeral() {
    assert_eq!(i64_to_dec_string(0), "0");
    assert_eq!(i64_to_dec_string(-42), "-42");
    assert_eq!(i64_to_dec_string(1234567890), "1234567890");
}

fn labels() -> ListParameter {
    ListParameter {
        elements: vec![
            "alpha".to_string(),
            "beta".to_string(),
            "gamma".to_string(),
        ],
    }
}

#[test]
fn list_lookup_normalizes_the_index() {
    let lp = labels();
    assert_eq!(lp.parse("beta"), Some(Ratio { num: 1, den: 2 }));
    assert_eq!(lp.parse("gamma"), Some(Ratio { num: 2, den: 2 }));
    assert_eq!(lp.parse("delta"), None);
    assert_eq!(lp.parse(""), None);
}

#[test]
fn list_format_selects_the_label() {
    let lp = labels();
    assert_eq!(lp.format(Ratio { num: 1, den: 2 }), "beta");
    assert_eq!(lp.format(Ratio { num: 0, den: 1 }), "alpha");
    // past the labels: no display value
    assert_eq!(lp.format(Ratio { num: 3, den: 1 }), "");
    // below zero saturates to the first label
    assert_eq!(lp.format(Ratio { num: -1, den: 2 }), "alpha");
}

#[test]
fn list_maps_are_linear_in_the_index() {
    let lp = labels();
    assert_eq!(lp.denormalize(Ratio { num: 1, den: 1 }), 2);
    assert_eq!(lp.denormalize(Ratio { num: 1, den: 2 }), 1);
    let v = lp.normalize(Ratio { num: 2, den: 1 });
    assert_eq!(v, Ratio { num: 2, den: 2 });
}
