use pdf_merger::config::{
    configure, output_path, parse_u32, read_dpi, read_side, settle_output, DpiArgument, RawArguments,
    RunConfig, DEFAULT_DPI_BITS, DEFAULT_SCALE_HEIGHT, DEFAULT_SCALE_WIDTH,
};
use pdf_merger::error::ConfigError;
use pdf_merger::geometry::Extent;
use pdf_merger::inputs::InputSource;

fn arguments() -> RawArguments {
    RawArguments {
        images: Some(vec!["a.png".to_string(), "b.png".to_string()]),
        directory: None,
        output: "out".to_string(),
        dpi: DpiArgument::Absent,
        scale_width: None,
        scale_height: None,
        auto_sort: false,
        title: String::new(),
    }
}

fn text(s: &str) -> Option<String> {
    Some(s.to_string())
}

#[test]
fn parse_u32_reads_decimal_numbers() {
    assert_eq!(parse_u32("0"), Some(0));
    assert_eq!(parse_u32("7"), Some(7));
    assert_eq!(parse_u32("720"), Some(720));
    assert_eq!(parse_u32("1280"), Some(1280));
    assert_eq!(parse_u32("007"), Some(7));
    assert_eq!(parse_u32("+5"), Some(5));
    assert_eq!(parse_u32("4294967295"), Some(u32::MAX));
    assert_eq!(parse_u32("0000000004294967295"), Some(u32::MAX));
}

#[test]
fn parse_u32_rejects_what_is_no_number() {
    for bad in ["", "+", "-", "-1", "++1", "+-1", " 1", "1 ", "1_000", "12a", "a12", "1.0", "0x10", "١٢", "1é"] {
        assert_eq!(parse_u32(bad), None, "{bad:?}");
    }
}

#[test]
fn parse_u32_rejects_what_does_not_fit() {
    assert_eq!(parse_u32("4294967296"), None);
    assert_eq!(parse_u32("4294967300"), None);
    assert_eq!(parse_u32("99999999999999999999999999999999"), None);
    assert_eq!(parse_u32("+4294967296"), None);
}

#[test]
fn parse_u32_agrees_with_the_standard_parser() {
    let samples = [
        "", "0", "1", "+1", "-1", "+", "42", "4294967295", "4294967296", "42949672950", "00", "0 ",
        " 0", "1e3", "١", "12345678", "+0000", "9999999999", "429496729", "4294967294",
    ];
    for sample in samples {
        assert_eq!(parse_u32(sample), sample.parse::<u32>().ok(), "{sample:?}");
    }
}

#[test]
fn defaults_are_96_dpi_and_720_by_1280() {
    assert_eq!(f64::from_bits(DEFAULT_DPI_BITS), 96.0);
    assert_eq!(DEFAULT_SCALE_WIDTH, 720);
    assert_eq!(DEFAULT_SCALE_HEIGHT, 1280);
}

#[test]
fn read_dpi_takes_the_default() {
    assert_eq!(read_dpi(DpiArgument::Absent).unwrap().bits(), 96.0f64.to_bits());
}

#[test]
fn read_dpi_takes_a_positive_number() {
    assert_eq!(read_dpi(DpiArgument::Bits(300.0f64.to_bits())).unwrap().bits(), 300.0f64.to_bits());
}

#[test]
fn read_dpi_rejects_zero_and_negative_numbers() {
    for value in [0.0f64, -0.0, -1.0, -96.0] {
        let fault = read_dpi(DpiArgument::Bits(value.to_bits())).unwrap_err();
        assert_eq!(fault, ConfigError::DpiNotPositive);
    }
}

#[test]
fn read_dpi_rejects_what_is_not_finite() {
    for value in [f64::INFINITY, f64::NAN] {
        let fault = read_dpi(DpiArgument::Bits(value.to_bits())).unwrap_err();
        assert_eq!(fault, ConfigError::DpiNotPositive);
    }
}

#[test]
fn read_dpi_rejects_what_is_no_number() {
    assert_eq!(read_dpi(DpiArgument::Unparsable).unwrap_err(), ConfigError::DpiNotANumber);
}

#[test]
fn read_side_reads_or_defaults() {
    let fault = ConfigError::ScaleWidthNotAnInteger;
    assert_eq!(read_side(&None, 720, fault), Ok(720));
    assert_eq!(read_side(&text("1024"), 720, fault), Ok(1024));
    assert_eq!(read_side(&text("0"), 720, fault), Ok(0));
    assert_eq!(read_side(&text("wide"), 720, fault), Err(fault));
    assert_eq!(read_side(&text(""), 720, ConfigError::ScaleHeightNotAnInteger), Err(ConfigError::ScaleHeightNotAnInteger));
}

#[test]
fn configure_with_defaults() {
    let config: RunConfig = configure(arguments()).unwrap();
    assert!(matches!(&config.source, InputSource::Files(list) if list == &["a.png", "b.png"]));
    assert_eq!(config.output, "out");
    assert_eq!(f64::from_bits(config.dpi.bits()), 96.0);
    assert_eq!(config.frame, Extent { width: 720, height: 1280 });
    assert!(!config.auto_sort);
    assert_eq!(config.title, "");
}

#[test]
fn configure_with_everything_given() {
    let raw = RawArguments {
        images: None,
        directory: Some("scans".to_string()),
        output: "book.pdf".to_string(),
        dpi: DpiArgument::Bits(100.0f64.to_bits()),
        scale_width: text("1000"),
        scale_height: text("2000"),
        auto_sort: true,
        title: "Book".to_string(),
    };
    let config = configure(raw).unwrap();
    assert!(matches!(&config.source, InputSource::Directory(dir) if dir == "scans"));
    assert_eq!(config.output, "book.pdf");
    assert_eq!(f64::from_bits(config.dpi.bits()), 100.0);
    assert_eq!(config.frame, Extent { width: 1000, height: 2000 });
    assert!(config.auto_sort);
    assert_eq!(config.title, "Book");
}

#[test]
fn configure_rejects_list_and_directory_together() {
    let raw = RawArguments { directory: text("scans"), ..arguments() };
    assert_eq!(configure(raw).unwrap_err(), ConfigError::ConflictingInputs);
}

#[test]
fn configure_rejects_no_input() {
    let raw = RawArguments { images: None, ..arguments() };
    assert_eq!(configure(raw).unwrap_err(), ConfigError::MissingInput);
}

#[test]
fn configure_rejects_dpi_zero() {
    let raw = RawArguments { dpi: DpiArgument::Bits(0.0f64.to_bits()), ..arguments() };
    assert_eq!(configure(raw).unwrap_err(), ConfigError::DpiNotPositive);
}

#[test]
fn configure_rejects_negative_dpi() {
    let raw = RawArguments { dpi: DpiArgument::Bits((-96.0f64).to_bits()), ..arguments() };
    assert_eq!(configure(raw).unwrap_err(), ConfigError::DpiNotPositive);
}

#[test]
fn configure_rejects_dpi_that_is_no_number() {
    let raw = RawArguments { dpi: DpiArgument::Unparsable, ..arguments() };
    assert_eq!(configure(raw).unwrap_err(), ConfigError::DpiNotANumber);
}

#[test]
fn configure_rejects_bad_frame_sides() {
    let raw = RawArguments { scale_width: text("wide"), ..arguments() };
    assert_eq!(configure(raw).unwrap_err(), ConfigError::ScaleWidthNotAnInteger);
    let raw = RawArguments { scale_height: text("-3"), ..arguments() };
    assert_eq!(configure(raw).unwrap_err(), ConfigError::ScaleHeightNotAnInteger);
}

#[test]
fn configure_reports_the_first_fault() {
    let all_wrong = RawArguments {
        images: None,
        directory: None,
        output: String::new(),
        dpi: DpiArgument::Unparsable,
        scale_width: text("x"),
        scale_height: text("y"),
        auto_sort: false,
        title: String::new(),
    };
    assert_eq!(configure(all_wrong).unwrap_err(), ConfigError::MissingInput);
    let raw = RawArguments {
        dpi: DpiArgument::Bits(0),
        scale_width: text("x"),
        scale_height: text("y"),
        ..arguments()
    };
    assert_eq!(configure(raw).unwrap_err(), ConfigError::DpiNotPositive);
    let raw = RawArguments { scale_width: text("x"), scale_height: text("y"), ..arguments() };
    assert_eq!(configure(raw).unwrap_err(), ConfigError::ScaleWidthNotAnInteger);
}

#[test]
fn config_error_messages() {
    assert_eq!(ConfigError::DpiNotANumber.message(), "Value <dpi> could not be parsed as a float");
    assert_eq!(
        ConfigError::ScaleWidthNotAnInteger.message(),
        "Value <scale-width> could not be parsed as an int"
    );
    assert_eq!(
        ConfigError::ScaleHeightNotAnInteger.message(),
        "Value <scale-height> could not be parsed as an int"
    );
    assert_eq!(ConfigError::DpiNotPositive.message(), "Value <dpi> must be a positive finite number");
    assert_eq!(ConfigError::MissingInput.message(), "One of <imgs> or <dir> must be given");
    assert_eq!(ConfigError::ConflictingInputs.message(), "Only one of <imgs> and <dir> may be given");
}

#[test]
fn settle_output_keeps_a_pdf_path() {
    let settled = settle_output("a.pdf".to_string(), text("pdf"), "other.pdf".to_string());
    assert_eq!(settled, "a.pdf");
}

#[test]
fn settle_output_replaces_any_other_extension() {
    assert_eq!(settle_output("a.txt".to_string(), text("txt"), "a.pdf".to_string()), "a.pdf");
    assert_eq!(settle_output("a.PDF".to_string(), text("PDF"), "a.pdf".to_string()), "a.pdf");
    assert_eq!(settle_output("a".to_string(), None, "a.pdf".to_string()), "a.pdf");
    assert_eq!(settle_output("a.".to_string(), text(""), "a.pdf".to_string()), "a.pdf");
}

#[test]
fn output_path_appends_the_extension() {
    assert_eq!(output_path("out".to_string()), "out.pdf");
    assert_eq!(output_path("dir/out".to_string()), "dir/out.pdf");
}

#[test]
fn output_path_replaces_another_extension() {
    assert_eq!(output_path("out.txt".to_string()), "out.pdf");
    assert_eq!(output_path("archive.tar.gz".to_string()), "archive.tar.pdf");
    assert_eq!(output_path("out.PDF".to_string()), "out.pdf");
}

#[test]
fn output_path_keeps_a_pdf_path() {
    assert_eq!(output_path("out.pdf".to_string()), "out.pdf");
    assert_eq!(output_path("dir.d/out.pdf".to_string()), "dir.d/out.pdf");
}
