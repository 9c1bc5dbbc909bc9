use printerator::FormatParams;
use printerator::PrinterateDebug;
use printerator::PrinterateDisplay;
use printerator::RenderDebug;
use printerator::RenderDisplay;
use printerator::RenderError;
use printerator::VecSource;

const DATA: [u32; 6] = [0xdeadc0de, 0xcafebabe, 0xabad1dea, 0xaaaaaaaa, 0x00000000, 0x37539436];
const ONEDATA: [u32; 1] = [0x12345678];

/// A precision-sensitive item: a float rendered at whatever precision the
/// formatting parameters carry.
struct Approx(f32);

impl RenderDebug for Approx {
    // The ghost members of the protocol; they are never called at run time.
    fn debug_renders(&self, _params: FormatParams) -> bool {
        unreachable!()
    }

    fn debug_text(&self, _params: FormatParams) -> vstd::seq::Seq<char> {
        unreachable!()
    }

    fn render_debug(&self, params: &FormatParams) -> Result<String, RenderError> {
        Ok(match params.precision {
            Some(p) => format!("{:.prec$?}", self.0, prec = p),
            None => format!("{:?}", self.0),
        })
    }
}

impl RenderDisplay for Approx {
    // The ghost members of the protocol; they are never called at run time.
    fn display_renders(&self, _params: FormatParams) -> bool {
        unreachable!()
    }

    fn display_text(&self, _params: FormatParams) -> vstd::seq::Seq<char> {
        unreachable!()
    }

    fn render_display(&self, params: &FormatParams) -> Result<String, RenderError> {
        Ok(match params.precision {
            Some(p) => format!("{:.prec$}", self.0, prec = p),
            None => format!("{}", self.0),
        })
    }
}

fn plain() -> FormatParams {
    FormatParams { precision: None, alternate: false }
}

fn precision(p: usize) -> FormatParams {
    FormatParams { precision: Some(p), alternate: false }
}

fn enumerated() -> VecSource<u64> {
    VecSource::new(vec![0u64, 1, 2, 3, 4, 5])
}

fn one_enumerated() -> VecSource<u64> {
    VecSource::new(vec![0u64])
}

fn data() -> VecSource<Approx> {
    VecSource::new(DATA.iter().map(|&int| Approx((int as f32).sqrt())).collect())
}

fn one_data() -> VecSource<Approx> {
    VecSource::new(ONEDATA.iter().map(|&int| Approx((int as f32).sqrt())).collect())
}

fn string() -> VecSource<String> {
    VecSource::new(vec![String::from("Hello, wüåçorld!")])
}

#[test]
fn printerd_string_quoted() {
    let formatted = string().printerd_with_options(false, false).fmt(&plain()).unwrap();
    assert_eq!(formatted, "\"Hello, wüåçorld!\"");
}

#[test]
fn printer_string_unquoted() {
    let formatted = string().printer_with_options(false, false).fmt(&plain()).unwrap();
    assert_eq!(formatted, "Hello, wüåçorld!");
}

#[test]
fn printerd_unpretty_noindices_enumerated() {
    let formatted = enumerated().printerd_with_options(false, false).fmt(&plain()).unwrap();
    assert_eq!(formatted, "0, 1, 2, 3, 4, 5");
    let formatted = one_enumerated().printerd_with_options(false, false).fmt(&plain()).unwrap();
    assert_eq!(formatted, "0");
}

#[test]
fn printerd_unpretty_noindices_data() {
    let formatted = data().printerd_with_options(false, false).fmt(&precision(1)).unwrap();
    assert_eq!(formatted, "61122.2, 58358.3, 53668.0, 53509.9, 0.0, 30466.8");
    let formatted = one_data().printerd_with_options(false, false).fmt(&precision(1)).unwrap();
    assert_eq!(formatted, "17476.3");
}

#[test]
fn printerd_pretty_noindices_enumerated() {
    let formatted = enumerated().printerd_with_options(true, false).fmt(&plain()).unwrap();
    assert_eq!(formatted, "[\n    0,\n    1,\n    2,\n    3,\n    4,\n    5\n]");
    let formatted = one_enumerated().printerd_with_options(true, false).fmt(&plain()).unwrap();
    assert_eq!(formatted, "[\n    0\n]");
}

#[test]
fn printerd_pretty_noindices_data() {
    let formatted = data().printerd_with_options(true, false).fmt(&precision(1)).unwrap();
    assert_eq!(
        formatted,
        "[\n    61122.2,\n    58358.3,\n    53668.0,\n    53509.9,\n    0.0,\n    30466.8\n]"
    );
    let formatted = one_data().printerd_with_options(true, false).fmt(&precision(1)).unwrap();
    assert_eq!(formatted, "[\n    17476.3\n]");
}

#[test]
fn printerd_pretty_indices_enumerated() {
    let formatted = enumerated().printerd_with_options(true, true).fmt(&plain()).unwrap();
    assert_eq!(formatted, "[\n    0: 0,\n    1: 1,\n    2: 2,\n    3: 3,\n    4: 4,\n    5: 5\n]");
    let formatted = one_enumerated().printerd_with_options(true, true).fmt(&plain()).unwrap();
    assert_eq!(formatted, "[\n    0: 0\n]");
}

#[test]
fn printerd_pretty_indices_data() {
    let formatted = data().printerd_with_options(true, true).fmt(&precision(1)).unwrap();
    assert_eq!(
        formatted,
        "[\n    0: 61122.2,\n    1: 58358.3,\n    2: 53668.0,\n    3: 53509.9,\n    4: 0.0,\n    5: 30466.8\n]"
    );
    let formatted = one_data().printerd_with_options(true, true).fmt(&precision(1)).unwrap();
    assert_eq!(formatted, "[\n    0: 17476.3\n]");
}

#[test]
fn printerd_unpretty_indices_enumerated() {
    let formatted = enumerated().printerd_with_options(false, true).fmt(&plain()).unwrap();
    assert_eq!(formatted, "0: 0, 1: 1, 2: 2, 3: 3, 4: 4, 5: 5");
    let formatted = one_enumerated().printerd_with_options(false, true).fmt(&plain()).unwrap();
    assert_eq!(formatted, "0: 0");
}

#[test]
fn printerd_unpretty_indices_data() {
    let formatted = data().printerd_with_options(false, true).fmt(&precision(1)).unwrap();
    assert_eq!(formatted, "0: 61122.2, 1: 58358.3, 2: 53668.0, 3: 53509.9, 4: 0.0, 5: 30466.8");
    let formatted = one_data().printerd_with_options(false, true).fmt(&precision(1)).unwrap();
    assert_eq!(formatted, "0: 17476.3");
}

#[test]
fn printer_unpretty_noindices_enumerated() {
    let formatted = enumerated().printer_with_options(false, false).fmt(&plain()).unwrap();
    assert_eq!(formatted, "0, 1, 2, 3, 4, 5");
    let formatted = one_enumerated().printer_with_options(false, false).fmt(&plain()).unwrap();
    assert_eq!(formatted, "0");
}

#[test]
fn printer_unpretty_noindices_data() {
    let formatted = data().printer_with_options(false, false).fmt(&precision(1)).unwrap();
    assert_eq!(formatted, "61122.2, 58358.3, 53668.0, 53509.9, 0.0, 30466.8");
    let formatted = one_data().printer_with_options(false, false).fmt(&precision(1)).unwrap();
    assert_eq!(formatted, "17476.3");
}

#[test]
fn printer_pretty_noindices_enumerated() {
    let formatted = enumerated().printer_with_options(true, false).fmt(&plain()).unwrap();
    assert_eq!(formatted, "[\n    0,\n    1,\n    2,\n    3,\n    4,\n    5\n]");
    let formatted = one_enumerated().printer_with_options(true, false).fmt(&plain()).unwrap();
    assert_eq!(formatted, "[\n    0\n]");
}

#[test]
fn printer_pretty_noindices_data() {
    let formatted = data().printer_with_options(true, false).fmt(&precision(1)).unwrap();
    assert_eq!(
        formatted,
        "[\n    61122.2,\n    58358.3,\n    53668.0,\n    53509.9,\n    0.0,\n    30466.8\n]"
    );
    let formatted = one_data().printer_with_options(true, false).fmt(&precision(1)).unwrap();
    assert_eq!(formatted, "[\n    17476.3\n]");
}

#[test]
fn printer_pretty_indices_enumerated() {
    let formatted = enumerated().printer_with_options(true, true).fmt(&plain()).unwrap();
    assert_eq!(formatted, "[\n    0: 0,\n    1: 1,\n    2: 2,\n    3: 3,\n    4: 4,\n    5: 5\n]");
    let formatted = one_enumerated().printer_with_options(true, true).fmt(&plain()).unwrap();
    assert_eq!(formatted, "[\n    0: 0\n]");
}

#[test]
fn printer_pretty_indices_data() {
    let formatted = data().printer_with_options(true, true).fmt(&precision(1)).unwrap();
    assert_eq!(
        formatted,
        "[\n    0: 61122.2,\n    1: 58358.3,\n    2: 53668.0,\n    3: 53509.9,\n    4: 0.0,\n    5: 30466.8\n]"
    );
    let formatted = one_data().printer_with_options(true, true).fmt(&precision(1)).unwrap();
    assert_eq!(formatted, "[\n    0: 17476.3\n]");
}

#[test]
fn printer_unpretty_indices_enumerated() {
    let formatted = enumerated().printer_with_options(false, true).fmt(&plain()).unwrap();
    assert_eq!(formatted, "0: 0, 1: 1, 2: 2, 3: 3, 4: 4, 5: 5");
    let formatted = one_enumerated().printer_with_options(false, true).fmt(&plain()).unwrap();
    assert_eq!(formatted, "0: 0");
}

#[test]
fn printer_unpretty_indices_data() {
    let formatted = data().printer_with_options(false, true).fmt(&precision(1)).unwrap();
    assert_eq!(formatted, "0: 61122.2, 1: 58358.3, 2: 53668.0, 3: 53509.9, 4: 0.0, 5: 30466.8");
    let formatted = one_data().printer_with_options(false, true).fmt(&precision(1)).unwrap();
    assert_eq!(formatted, "0: 17476.3");
}
