use printerator::FormatParams;
use printerator::PrinterateDebug;
use printerator::PrinterateDisplay;
use printerator::RenderDebug;
use printerator::RenderError;
use printerator::VecSource;

fn plain() -> FormatParams {
    FormatParams { precision: None, alternate: false }
}

/// A precision-sensitive item with an exact binary value.
struct Exact(f32);

impl printerator::RenderDisplay for Exact {
    // The ghost members of the protocol; they are never called at run time.
    fn display_renders(&self, _params: FormatParams) -> bool {
        unreachable!()
    }

    fn display_text(&self, _params: FormatParams) -> vstd::seq::Seq<char> {
        unreachable!()
    }

    fn render_display(&self, params: &FormatParams) -> Result<String, RenderError> {
        Ok(match params.precision {
            Some(p) => format!("{:.prec$}", self.0, prec = p),
            None => format!("{}", self.0),
        })
    }
}

/// An item whose rendering always fails.
struct Boom;

impl RenderDebug for Boom {
    // The ghost members of the protocol; they are never called at run time.
    fn debug_renders(&self, _params: FormatParams) -> bool {
        unreachable!()
    }

    fn debug_text(&self, _params: FormatParams) -> vstd::seq::Seq<char> {
        unreachable!()
    }

    fn render_debug(&self, _params: &FormatParams) -> Result<String, RenderError> {
        Err(RenderError)
    }
}

#[test]
fn empty_unpretty_is_empty() {
    let formatted = VecSource::<u64>::new(vec![]).printerd_with_options(false, true)
        .fmt(&plain())
        .unwrap();
    assert_eq!(formatted, "");
}

#[test]
fn empty_pretty_is_bracket_pair() {
    let formatted = VecSource::<u64>::new(vec![]).printerd_with_options(true, true)
        .fmt(&plain())
        .unwrap();
    assert_eq!(formatted, "[]");
    let formatted = VecSource::<u64>::new(vec![]).printer_with_options(true, false)
        .fmt(&plain())
        .unwrap();
    assert_eq!(formatted, "[]");
}

#[test]
fn default_options_are_unpretty_with_indices() {
    let formatted = VecSource::new(vec![7u64, 8, 9]).printerd().fmt(&plain()).unwrap();
    assert_eq!(formatted, "0: 7, 1: 8, 2: 9");
    let formatted = VecSource::new(vec![7u64, 8, 9]).printer().fmt(&plain()).unwrap();
    assert_eq!(formatted, "0: 7, 1: 8, 2: 9");
}

#[test]
fn source_is_drained_exactly_once() {
    let adapter = VecSource::new(vec![4u64, 5, 6]).printerd_with_options(false, false);
    let first = adapter.fmt(&plain()).unwrap();
    assert_eq!(first, "4, 5, 6");
    let second = adapter.fmt(&plain()).unwrap();
    assert_eq!(second, "");
    let adapter = VecSource::new(vec![4u64, 5]).printerd_with_options(true, true);
    let first = adapter.fmt(&plain()).unwrap();
    assert_eq!(first, "[\n    0: 4,\n    1: 5\n]");
    let second = adapter.fmt(&plain()).unwrap();
    assert_eq!(second, "[]");
}

#[test]
fn failing_item_aborts_rendering() {
    let adapter = VecSource::new(vec![Boom]).printerd_with_options(false, false);
    assert_eq!(adapter.fmt(&plain()), Err(RenderError));
}

#[test]
fn large_numbers_render_in_decimal() {
    let formatted = VecSource::new(vec![18446744073709551615u64, 0, 1000000])
        .printerd_with_options(false, false)
        .fmt(&plain())
        .unwrap();
    assert_eq!(formatted, "18446744073709551615, 0, 1000000");
}

#[test]
fn indices_count_emission_order_from_zero() {
    let formatted = VecSource::new(vec![50u64, 40, 30, 20]).printer_with_options(false, true)
        .fmt(&plain())
        .unwrap();
    assert_eq!(formatted, "0: 50, 1: 40, 2: 30, 3: 20");
}

#[test]
fn separator_count_is_items_minus_one() {
    let formatted = VecSource::new(vec![1u64, 2, 3, 4, 5, 6]).printerd_with_options(false, false)
        .fmt(&plain())
        .unwrap();
    assert_eq!(formatted.matches(", ").count(), 5);
    let formatted = VecSource::new(vec![1u64, 2, 3, 4, 5, 6]).printerd_with_options(true, false)
        .fmt(&plain())
        .unwrap();
    assert_eq!(formatted.matches(",\n").count(), 5);
    assert!(formatted.starts_with('['));
    assert!(formatted.ends_with(']'));
}

#[test]
fn precision_is_forwarded_to_every_item() {
    let items = || vec![Exact(0.5), Exact(0.25)];
    let formatted = VecSource::new(items()).printer_with_options(false, false)
        .fmt(&FormatParams { precision: Some(3), alternate: false })
        .unwrap();
    assert_eq!(formatted, "0.500, 0.250");
    let formatted = VecSource::new(items()).printer_with_options(false, false)
        .fmt(&FormatParams { precision: Some(1), alternate: false })
        .unwrap();
    assert_eq!(formatted, "0.5, 0.2");
}

#[test]
fn display_and_debug_differ_on_strings() {
    let hello = || VecSource::new(vec![String::from("Hello, world!")]);
    let formatted = hello().printer_with_options(false, false).fmt(&plain()).unwrap();
    assert_eq!(formatted, "Hello, world!");
    let formatted = hello().printerd_with_options(false, false).fmt(&plain()).unwrap();
    assert_eq!(formatted, "\"Hello, world!\"");
}

#[test]
fn string_display_honors_precision() {
    let hello = || VecSource::new(vec![String::from("Hello"), String::from("wüåçorld")]);
    let formatted = hello().printer_with_options(false, false)
        .fmt(&FormatParams { precision: Some(2), alternate: false })
        .unwrap();
    assert_eq!(formatted, "He, wü");
    assert_eq!(format!("{:.2}, {:.2}", "Hello", "wüåçorld"), "He, wü");
    let formatted = hello().printer_with_options(false, false)
        .fmt(&FormatParams { precision: Some(100), alternate: false })
        .unwrap();
    assert_eq!(formatted, "Hello, wüåçorld");
}
