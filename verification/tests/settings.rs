//! The machine settings.
use larris::binary64::Real;
use larris::message::{Message, Piece, Quantity};
use larris::settings::{MachineSettings, FIRST_SWITCH};

fn num(v: f64) -> Real {
    Real { bits: v.to_bits() }
}

fn value(r: Real) -> f64 {
    f64::from_bits(r.bits)
}

fn amount(q: &Quantity) -> f64 {
    match q {
        Quantity::Exact(r) => value(*r),
        Quantity::Written(s) => s.parse().unwrap(),
        Quantity::Minus(a, b) => amount(a) - amount(b),
    }
}

fn shown(m: &Message) -> String {
    let mut out = String::new();
    for p in &m.pieces {
        match p {
            Piece::Plain(s) => out += s,
            Piece::Number { quantity, places, width } => {
                let (w, p) = (*width as usize, *places as usize);
                out += &format!("{:>w$.p$}", amount(quantity));
            }
        }
    }
    out
}

/// Enter a text as it comes from the edit field.
fn enter(s: &mut MachineSettings, idx: usize, raw: &str) -> Result<(), String> {
    let number = raw.trim().parse::<f64>().map(num).map_err(|e| e.to_string());
    s.set_field(idx, raw, number)
}

fn settings_with_begin(seq: &str) -> MachineSettings {
    MachineSettings {
        begin_sequence: seq.to_owned(),
        ..MachineSettings::default()
    }
}

#[test]
fn sanitise_removes_integer_s_word() {
    let s = settings_with_begin("G90 G21 M4 S1000");
    assert_eq!(s.sanitised_begin_sequence(), "G90 G21 M4");
}

#[test]
fn sanitise_removes_decimal_s_word() {
    let s = settings_with_begin("G90 G21 M4 S750.5");
    assert_eq!(s.sanitised_begin_sequence(), "G90 G21 M4");
}

#[test]
fn sanitise_removes_zero_s_word() {
    let s = settings_with_begin("G90 G21 M4 S0");
    assert_eq!(s.sanitised_begin_sequence(), "G90 G21 M4");
}

#[test]
fn sanitise_leaves_sequence_without_s_unchanged() {
    let s = settings_with_begin("G90 G21 M4");
    assert_eq!(s.sanitised_begin_sequence(), "G90 G21 M4");
}

#[test]
fn sanitise_handles_empty_sequence() {
    let s = settings_with_begin("");
    assert_eq!(s.sanitised_begin_sequence(), "");
}

#[test]
fn sanitise_removes_s_word_at_start() {
    let s = settings_with_begin("S1000 G90 G21 M4");
    assert_eq!(s.sanitised_begin_sequence(), "G90 G21 M4");
}

#[test]
fn sanitise_removes_multiple_s_words() {
    let s = settings_with_begin("G90 S500 G21 M4 S1000");
    assert_eq!(s.sanitised_begin_sequence(), "G90 G21 M4");
}

#[test]
fn sanitise_does_not_remove_commands_starting_with_s_letter() {
    let s = settings_with_begin("G90 G21 M4");
    assert_eq!(s.sanitised_begin_sequence(), "G90 G21 M4");
    // A lone S and a longer word are no S words.
    let s = settings_with_begin("S SCAN G90 s12");
    assert_eq!(s.sanitised_begin_sequence(), "S SCAN G90");
}

#[test]
fn sanitise_takes_any_white_space_between_words() {
    let s = settings_with_begin("G90\n\tM4   S5\u{a0}G21");
    assert_eq!(s.sanitised_begin_sequence(), "G90 M4 G21");
}

#[test]
fn field_count_matches_field_names_length() {
    assert_eq!(MachineSettings::field_count(), MachineSettings::FIELD_NAMES.len());
}

#[test]
fn field_names_are_found_by_index() {
    for idx in 0..MachineSettings::field_count() {
        assert_eq!(MachineSettings::field_name(idx), MachineSettings::FIELD_NAMES[idx]);
    }
    assert_eq!(MachineSettings::field_name(6), "Feedrate (mm/min)");
    assert_eq!(MachineSettings::field_name(15), "");
}

#[test]
fn field_value_returns_string_for_every_index() {
    let s = MachineSettings::default();
    for idx in 0..MachineSettings::field_count() {
        let v = shown(&s.field_value(idx));
        assert!(
            !v.is_empty() || idx == 0 || idx == 1,
            "field_value({idx}) returned empty string unexpectedly"
        );
    }
}

#[test]
fn field_value_out_of_range_returns_empty() {
    let s = MachineSettings::default();
    assert_eq!(shown(&s.field_value(999)), "");
}

#[test]
fn default_values_read_as_shown_in_the_edit_fields() {
    let s = MachineSettings::default();
    let all: Vec<String> = (0..15).map(|i| shown(&s.field_value(i))).collect();
    assert_eq!(all[2..12], ["150.0", "150.0", "10000", "1000", "3000", "0.1000", "96.0", "1000", "0.0", "0.0"]);
    assert_eq!(all[12..], ["false", "false", "false"]);
}

#[test]
fn set_field_out_of_range_returns_error() {
    let mut s = MachineSettings::default();
    assert!(enter(&mut s, 999, "42").is_err());
}

#[test]
fn set_field_roundtrip_begin_sequence() {
    let mut s = MachineSettings::default();
    enter(&mut s, 0, "G90 G21 M3").unwrap();
    assert_eq!(shown(&s.field_value(0)), "G90 G21 M3");
    assert_eq!(s.begin_sequence, "G90 G21 M3");
}

#[test]
fn set_field_roundtrip_end_sequence() {
    let mut s = MachineSettings::default();
    enter(&mut s, 1, "M5 G0 X0 Y0").unwrap();
    assert_eq!(shown(&s.field_value(1)), "M5 G0 X0 Y0");
    assert_eq!(s.end_sequence, "M5 G0 X0 Y0");
}

#[test]
fn set_field_roundtrip_max_x_mm() {
    let mut s = MachineSettings::default();
    enter(&mut s, 2, "200.0").unwrap();
    assert!((value(s.max_x_mm) - 200.0).abs() < 1e-9);
    assert_eq!(shown(&s.field_value(2)), "200.0");
}

#[test]
fn set_field_roundtrip_max_y_mm() {
    let mut s = MachineSettings::default();
    enter(&mut s, 3, "300.5").unwrap();
    assert!((value(s.max_y_mm) - 300.5).abs() < 1e-9);
}

#[test]
fn set_field_roundtrip_max_speed() {
    let mut s = MachineSettings::default();
    enter(&mut s, 4, "5000").unwrap();
    assert!((value(s.max_speed) - 5000.0).abs() < 1e-9);
}

#[test]
fn set_field_roundtrip_max_laser_power() {
    let mut s = MachineSettings::default();
    enter(&mut s, 5, "500").unwrap();
    assert!((value(s.max_laser_power) - 500.0).abs() < 1e-9);
}

#[test]
fn set_field_roundtrip_feedrate() {
    let mut s = MachineSettings::default();
    enter(&mut s, 6, "1500").unwrap();
    assert!((value(s.feedrate) - 1500.0).abs() < 1e-9);
    assert_eq!(shown(&s.field_value(6)), "1500");
}

#[test]
fn set_field_roundtrip_tolerance() {
    let mut s = MachineSettings::default();
    enter(&mut s, 7, "0.0500").unwrap();
    assert!((value(s.tolerance) - 0.05).abs() < 1e-9);
}

#[test]
fn set_field_roundtrip_dpi() {
    let mut s = MachineSettings::default();
    enter(&mut s, 8, "72.0").unwrap();
    assert!((value(s.dpi) - 72.0).abs() < 1e-9);
}

#[test]
fn set_field_roundtrip_laser_power() {
    let mut s = MachineSettings::default();
    enter(&mut s, 9, "750").unwrap();
    assert!((value(s.laser_power) - 750.0).abs() < 1e-9);
    assert_eq!(shown(&s.field_value(9)), "750");
}

#[test]
fn set_field_roundtrip_origin_x() {
    let mut s = MachineSettings::default();
    enter(&mut s, 10, "12.5").unwrap();
    assert!((value(s.origin_x) - 12.5).abs() < 1e-9);
}

#[test]
fn set_field_roundtrip_origin_y() {
    let mut s = MachineSettings::default();
    enter(&mut s, 11, "7.0").unwrap();
    assert!((value(s.origin_y) - 7.0).abs() < 1e-9);
}

#[test]
fn set_field_roundtrip_circular_interpolation_true() {
    let mut s = MachineSettings::default();
    assert!(!s.circular_interpolation);
    enter(&mut s, 12, "true").unwrap();
    assert!(s.circular_interpolation);
    assert_eq!(shown(&s.field_value(12)), "true");
}

#[test]
fn set_field_roundtrip_circular_interpolation_false() {
    let mut s = MachineSettings::default();
    s.circular_interpolation = true;
    enter(&mut s, 12, "false").unwrap();
    assert!(!s.circular_interpolation);
    assert_eq!(shown(&s.field_value(12)), "false");
}

#[test]
fn set_field_boolean_accepts_1_and_yes() {
    let mut s = MachineSettings::default();
    enter(&mut s, 13, "1").unwrap();
    assert!(s.line_numbers);
    enter(&mut s, 13, "yes").unwrap();
    assert!(s.line_numbers);
    enter(&mut s, 13, "no").unwrap();
    assert!(!s.line_numbers);
}

#[test]
fn set_field_roundtrip_line_numbers() {
    let mut s = MachineSettings::default();
    enter(&mut s, 13, "true").unwrap();
    assert!(s.line_numbers);
    assert_eq!(shown(&s.field_value(13)), "true");
}

#[test]
fn set_field_roundtrip_checksums() {
    let mut s = MachineSettings::default();
    enter(&mut s, 14, "true").unwrap();
    assert!(s.checksums);
    assert_eq!(shown(&s.field_value(14)), "true");
}

#[test]
fn set_field_rejects_non_numeric_for_numeric_field() {
    let mut s = MachineSettings::default();
    assert!(enter(&mut s, 2, "not_a_number").is_err());
    assert!(enter(&mut s, 6, "abc").is_err());
    assert!(enter(&mut s, 7, "???").is_err());
}

#[test]
fn set_field_trims_whitespace() {
    let mut s = MachineSettings::default();
    enter(&mut s, 6, "  2000  ").unwrap();
    assert!((value(s.feedrate) - 2000.0).abs() < 1e-9);
    enter(&mut s, 0, "  G90  ").unwrap();
    assert_eq!(s.begin_sequence, "G90");
}

#[test]
fn a_refused_text_changes_no_field() {
    let mut s = MachineSettings::default();
    let before: Vec<String> = (0..15).map(|i| shown(&s.field_value(i))).collect();
    assert_eq!(enter(&mut s, 6, "fast"), Err("invalid float literal".to_owned()));
    assert_eq!(enter(&mut s, 15, "1"), Err("Unknown field".to_owned()));
    let after: Vec<String> = (0..15).map(|i| shown(&s.field_value(i))).collect();
    assert_eq!(before, after);
}

#[test]
fn entering_what_a_field_shows_changes_nothing() {
    for idx in 0..15 {
        let mut s = MachineSettings::default();
        let own = shown(&s.field_value(idx));
        enter(&mut s, idx, &own).unwrap();
        let d = MachineSettings::default();
        for other in 0..15 {
            assert_eq!(shown(&s.field_value(other)), shown(&d.field_value(other)));
        }
        assert_eq!((s.tolerance, s.beam_width), (d.tolerance, d.beam_width));
    }
}

#[test]
fn entering_one_field_leaves_the_others() {
    for idx in 0..15 {
        let mut s = MachineSettings::default();
        enter(&mut s, idx, if idx < FIRST_SWITCH { "7" } else { "YES" }).unwrap();
        let d = MachineSettings::default();
        for other in 0..15 {
            let same = shown(&s.field_value(other)) == shown(&d.field_value(other));
            assert_eq!(same, other != idx, "{idx} {other}");
        }
    }
}

#[test]
fn real_numbers_compare_as_floats_do() {
    let vs = [
        0.0, -0.0, 1.0, -1.0, 0.1, 1e300, -1e300, f64::MIN_POSITIVE, 5e-324, f64::MAX, f64::MIN,
        f64::INFINITY, f64::NEG_INFINITY, f64::NAN, -f64::NAN,
    ];
    for a in vs {
        assert_eq!(num(a).is_nan(), a.is_nan());
        assert_eq!(num(a).negate().bits, (-a).to_bits());
        for b in vs {
            assert_eq!(num(a).less(num(b)), a < b, "{a} {b}");
            assert_eq!(num(a).at_most(num(b)), a <= b, "{a} {b}");
            let m = value(num(a).min(num(b)));
            assert!(m == a.min(b) || (m.is_nan() && a.min(b).is_nan()), "{a} {b}");
        }
    }
    assert_eq!(value(Real::zero()), 0.0);
}
