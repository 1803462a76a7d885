//! Checks before and after a conversion, and the lines of a job.
use larris::binary64::Real;
use larris::converter::{
    accept_job, begin_sequence, is_tractable, plan_conversion, prepare_conversion, sendable_lines,
    settle_plan, try_conversion, validate_settings, ConversionError, ConversionFailure,
};
use larris::message::{Message, Piece, Quantity};
use larris::settings::MachineSettings;
use larris::trace::Extents;

fn num(v: f64) -> Real {
    Real { bits: v.to_bits() }
}

fn amount(q: &Quantity) -> f64 {
    match q {
        Quantity::Exact(r) => f64::from_bits(r.bits),
        Quantity::Written(s) => s.parse().unwrap(),
        Quantity::Minus(a, b) => amount(a) - amount(b),
    }
}

fn shown(m: &Message) -> String {
    let mut out = String::new();
    for p in &m.pieces {
        match p {
            Piece::Plain(s) => out += s,
            Piece::Number { quantity, places, width } => {
                let (w, p) = (*width as usize, *places as usize);
                out += &format!("{:>w$.p$}", amount(quantity));
            }
        }
    }
    out
}

fn body(e: &ConversionError) -> String {
    shown(&e.body)
}

fn valid_settings() -> MachineSettings {
    MachineSettings::default()
}

fn area(min: (f64, f64), max: (f64, f64)) -> Extents {
    Extents { min: (num(min.0), num(min.1)), max: (num(max.0), num(max.1)) }
}

fn validate_extents(
    s: &MachineSettings,
    min: (f64, f64),
    max: (f64, f64),
) -> Result<(), ConversionError> {
    larris::converter::validate_extents(s, area(min, max))
}

#[test]
fn validate_settings_accepts_defaults() {
    assert!(validate_settings(&valid_settings()).is_ok());
}

#[test]
fn validate_settings_rejects_zero_feedrate() {
    let mut s = valid_settings();
    s.feedrate = num(0.0);
    let err = validate_settings(&s).unwrap_err();
    assert!(body(&err).contains("Feedrate"), "body: {}", body(&err));
}

#[test]
fn validate_settings_rejects_negative_feedrate() {
    let mut s = valid_settings();
    s.feedrate = num(-100.0);
    let err = validate_settings(&s).unwrap_err();
    assert!(body(&err).contains("Feedrate"), "body: {}", body(&err));
}

#[test]
fn validate_settings_rejects_feedrate_above_max_speed() {
    let mut s = valid_settings();
    s.max_speed = num(1000.0);
    s.feedrate = num(2000.0);
    let err = validate_settings(&s).unwrap_err();
    assert!(
        body(&err).contains("max speed"),
        "expected max speed message, got: {}",
        body(&err)
    );
}

#[test]
fn validate_settings_rejects_zero_tolerance() {
    let mut s = valid_settings();
    s.tolerance = num(0.0);
    let err = validate_settings(&s).unwrap_err();
    assert!(body(&err).contains("Tolerance"), "body: {}", body(&err));
}

#[test]
fn validate_settings_rejects_negative_tolerance() {
    let mut s = valid_settings();
    s.tolerance = num(-0.01);
    let err = validate_settings(&s).unwrap_err();
    assert!(body(&err).contains("Tolerance"), "body: {}", body(&err));
}

#[test]
fn validate_settings_rejects_zero_dpi() {
    let mut s = valid_settings();
    s.dpi = num(0.0);
    let err = validate_settings(&s).unwrap_err();
    assert!(body(&err).contains("DPI"), "body: {}", body(&err));
}

#[test]
fn validate_settings_rejects_negative_laser_power() {
    let mut s = valid_settings();
    s.laser_power = num(-1.0);
    let err = validate_settings(&s).unwrap_err();
    assert!(body(&err).contains("Laser power"), "body: {}", body(&err));
}

#[test]
fn validate_settings_rejects_laser_power_above_max() {
    let mut s = valid_settings();
    s.max_laser_power = num(500.0);
    s.laser_power = num(600.0);
    let err = validate_settings(&s).unwrap_err();
    assert!(body(&err).contains("Laser power"), "body: {}", body(&err));
}

#[test]
fn validate_settings_rejects_zero_work_area() {
    let mut s = valid_settings();
    s.max_x_mm = num(0.0);
    let err = validate_settings(&s).unwrap_err();
    assert!(body(&err).contains("Work area"), "body: {}", body(&err));
}

#[test]
fn validate_settings_rejects_negative_origin() {
    let mut s = valid_settings();
    s.origin_x = num(-1.0);
    let err = validate_settings(&s).unwrap_err();
    assert!(body(&err).contains("Origin"), "body: {}", body(&err));
}

#[test]
fn validate_settings_accumulates_multiple_errors() {
    let mut s = valid_settings();
    s.feedrate = num(0.0);
    s.tolerance = num(0.0);
    s.dpi = num(0.0);
    let err = validate_settings(&s).unwrap_err();
    assert!(body(&err).contains("Feedrate"), "body: {}", body(&err));
    assert!(body(&err).contains("Tolerance"), "body: {}", body(&err));
    assert!(body(&err).contains("DPI"), "body: {}", body(&err));
}

#[test]
fn validate_extents_accepts_job_inside_work_area() {
    let s = valid_settings();
    assert!(validate_extents(&s, (0.0, 0.0), (100.0, 100.0)).is_ok());
}

#[test]
fn validate_extents_accepts_job_exactly_at_limit() {
    let s = valid_settings();
    assert!(validate_extents(&s, (0.0, 0.0), (150.0, 150.0)).is_ok());
}

#[test]
fn validate_extents_rejects_x_overrun() {
    let s = valid_settings();
    let err = validate_extents(&s, (0.0, 0.0), (160.0, 100.0)).unwrap_err();
    assert_eq!(err.title, "Job exceeds work area");
    assert!(
        body(&err).contains("machine limit"),
        "expected machine limit message, got: {}",
        body(&err)
    );
}

#[test]
fn validate_extents_rejects_y_overrun() {
    let s = valid_settings();
    let err = validate_extents(&s, (0.0, 0.0), (100.0, 200.0)).unwrap_err();
    assert_eq!(err.title, "Job exceeds work area");
    assert!(body(&err).contains("machine limit"), "body: {}", body(&err));
}

#[test]
fn validate_extents_rejects_negative_x_min() {
    let s = valid_settings();
    let err = validate_extents(&s, (-5.0, 0.0), (50.0, 50.0)).unwrap_err();
    assert!(
        body(&err).contains("must be ≥ 0"),
        "expected negative-X message, got: {}",
        body(&err)
    );
}

#[test]
fn validate_extents_rejects_negative_y_min() {
    let s = valid_settings();
    let err = validate_extents(&s, (0.0, -3.0), (50.0, 50.0)).unwrap_err();
    assert!(
        body(&err).contains("must be ≥ 0"),
        "expected negative-Y message, got: {}",
        body(&err)
    );
}

#[test]
fn validate_extents_reports_both_axis_overruns() {
    let s = valid_settings();
    let err = validate_extents(&s, (0.0, 0.0), (200.0, 200.0)).unwrap_err();
    let x_mention = body(&err).contains("X 200");
    let y_mention = body(&err).contains("Y 200");
    assert!(
        x_mention && y_mention,
        "expected both X and Y overrun messages, got: {}",
        body(&err)
    );
}

#[test]
fn validate_extents_body_contains_job_size_summary() {
    let s = valid_settings();
    let err = validate_extents(&s, (0.0, 0.0), (200.0, 175.0)).unwrap_err();
    assert!(
        body(&err).contains("Job size"),
        "expected job size summary, got: {}",
        body(&err)
    );
    assert!(
        body(&err).contains("Work area"),
        "expected work area summary, got: {}",
        body(&err)
    );
}

#[test]
fn a_number_that_is_none_is_not_refused() {
    // Comparisons with what is not a number are false, and nothing is refused
    // for them.
    let mut s = valid_settings();
    s.feedrate = num(f64::NAN);
    assert!(validate_settings(&s).is_ok());
}

#[test]
fn a_job_begins_with_its_own_power() {
    let mut s = valid_settings();
    s.begin_sequence = "G90 M4 S1".to_owned();
    s.laser_power = num(640.4);
    assert_eq!(shown(&begin_sequence(&s)), "G90 M4 S640");
    let plan = plan_conversion(&s).unwrap();
    assert_eq!(shown(&plan.begin), "G90 M4 S640");
    assert_eq!(plan.end, "M5 M2");
    assert_eq!(plan.config.origin, (Some(num(0.0)), Some(num(0.0))));
    assert_eq!(plan.config.feedrate, num(3000.0));
    assert!(!plan.circular_interpolation && !plan.line_numbers && !plan.checksums);
}

#[test]
fn a_conversion_is_refused_before_and_after() {
    let mut s = valid_settings();
    s.dpi = num(0.0);
    let err = plan_conversion(&s).unwrap_err();
    assert_eq!(err.title, "Invalid machine settings");
    assert!(shown(&err.shown()).starts_with("Invalid machine settings: "));
    let s = valid_settings();
    let fits = accept_job(&s, "G1 X1".to_owned(), area((0.0, 0.0), (150.0, 1.0)));
    assert_eq!(fits.unwrap(), "G1 X1");
    let err = accept_job(&s, "G1 X1".to_owned(), area((0.0, 0.0), (150.5, 1.0))).unwrap_err();
    assert_eq!(err.title, "Job exceeds work area");
}

#[test]
fn comments_and_blank_lines_are_not_sent() {
    let job = "; header\n\n  G90 ; absolute\nG1 X1 (fast) Y2\n(note)\nG1 (a (b) c) X3\r\n M5  \n)G0\n";
    assert_eq!(sendable_lines(job), ["G90", "G1 X1  Y2", "G1  X3", "M5", "G0"]);
}

#[test]
fn lines_without_comments_are_sent_as_they_are() {
    let job = "G90\nG21\nG1 X10 Y5 S500\nM5";
    assert_eq!(sendable_lines(job), ["G90", "G21", "G1 X10 Y5 S500", "M5"]);
    assert!(sendable_lines("").is_empty());
}

fn failure(r: Result<larris::converter::ConversionPlan, ConversionFailure>) -> String {
    match r {
        Ok(_) => "none".to_owned(),
        Err(ConversionFailure::Refused(e)) => e.title,
        Err(ConversionFailure::Other(e)) => e,
    }
}

#[test]
fn a_sequence_that_cannot_be_read_is_refused() {
    let mut s = valid_settings();
    let begin = "G90 G21 M4 S1000";
    assert_eq!(try_conversion("<svg/>", begin, &s).unwrap().end, "M5 M2");
    let why = failure(try_conversion("<svg/>", "G0 X+-1.5", &s));
    assert_eq!(why, "Bad begin sequence: it cannot be read");
    let why = failure(try_conversion("<svg>", "G0 X+-1.5", &s));
    assert!(why.starts_with("Failed to parse SVG document: "), "{why}");
    let why = failure(try_conversion("<svg/>", "G90 %", &s));
    assert!(why.starts_with("Bad begin sequence: ParseError"), "{why}");
    s.end_sequence = "X+-.5".to_owned();
    let why = failure(try_conversion("<svg/>", begin, &s));
    assert_eq!(why, "Bad end sequence: it cannot be read");
}

#[test]
fn a_conversion_is_prepared_unless_something_is_in_the_way() {
    let mut s = valid_settings();
    let begin = "G90 G21 M4 S1000";
    let plan = prepare_conversion("<svg/>", begin, &s).unwrap();
    assert_eq!(plan.end, "M5 M2");
    let why = failure(prepare_conversion("<svg>", begin, &s));
    assert!(why.starts_with("Failed to parse SVG document: "), "{why}");
    let why = failure(prepare_conversion("<svg/>", "G90 %", &s));
    assert!(why.starts_with("Bad begin sequence: ParseError"), "{why}");
    s.dpi = num(0.0);
    assert_eq!(failure(prepare_conversion("<svg/>", begin, &s)), "Invalid machine settings");
    s.end_sequence = "M5 =".to_owned();
    let why = failure(prepare_conversion("<svg/>", begin, &s));
    assert!(why.starts_with("Bad end sequence: "), "{why}");
}

#[test]
fn the_first_obstacle_is_told() {
    let mut s = valid_settings();
    s.dpi = num(0.0);
    let e = |t: &str| Some(t.to_owned());
    assert_eq!(
        failure(settle_plan(&s, e("x"), e("y"), e("z"))),
        "Failed to parse SVG document: x"
    );
    assert_eq!(failure(settle_plan(&s, None, e("y"), e("z"))), "Bad begin sequence: y");
    assert_eq!(failure(settle_plan(&s, None, None, e("z"))), "Bad end sequence: z");
    assert_eq!(failure(settle_plan(&s, None, None, None)), "Invalid machine settings");
    assert_eq!(failure(settle_plan(&valid_settings(), None, None, None)), "none");
}

#[test]
fn what_cannot_be_read_to_the_end_is_known() {
    assert!(is_tractable("G90 G21 M4 S1000 (a (b)) X-1.5 Y+2"));
    assert!(!is_tractable("X+-1.5") && !is_tractable("G0 X+-.5") && !is_tractable("$+-1."));
    assert!(is_tractable("X+-1") && is_tractable("X-+1.5") && is_tractable("X+-."));
    assert!(is_tractable("(X+-1.5) ; X+-1.5") && !is_tractable("(a) X+-1.5"));
    assert!(!is_tractable("; a\nX+-1.5") && !is_tractable("M117\";\" X+-1.5"));
    let most = "79228162514264337593543950335";
    assert!(is_tractable(&format!("S{most}")) && is_tractable(&format!("S{most}.4")));
    assert!(!is_tractable(&format!("S{most}.5")) && !is_tractable(&format!("S0{most}.9")));
    assert!(is_tractable("S79228162514264337593543950334.9"));
    assert!(is_tractable(&format!("S{}", "9".repeat(100))));
    assert!(!is_tractable(&format!("S{}", "9".repeat(101))));
    assert!(is_tractable(&format!("({}", "9".repeat(101))));
    assert!(is_tractable(&"(".repeat(100)));
    assert!(is_tractable(&"() ".repeat(101)));
    assert!(!is_tractable(&format!("M117\"a\" {}", "(".repeat(101))));
    assert!(!is_tractable(&"(".repeat(101)));
}
