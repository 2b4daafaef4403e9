use rcli::args::{verify_file, verify_input_file, verify_path};
use rcli::csv::{CsvOpts, OutputFormat};

#[test]
fn test_verify_input_file() {
    assert_eq!(verify_file("-"), Ok("-".into()));
    assert_eq!(verify_file("*"), Err("File not found".into()));
    assert_eq!(verify_file("tests/args.rs"), Ok("tests/args.rs".into()));
    assert_eq!(verify_file("not-exist"), Err("File not found".into()));
}

#[test]
fn input_file_must_exist() {
    assert_eq!(verify_input_file("-"), Err("File not found".into()));
    assert_eq!(verify_input_file("tests/args.rs"), Ok("tests/args.rs".into()));
}

#[test]
fn path_must_be_a_directory() {
    assert_eq!(verify_path("src"), Ok("src".into()));
    assert_eq!(verify_path("tests/args.rs"), Err("Path not found".into()));
    assert_eq!(verify_path("not-exist"), Err("Path not found".into()));
}

#[test]
fn csv_output_defaults_to_input_with_extension() {
    let mut opts = CsvOpts {
        input: "assets/juventus.csv".to_string(),
        output: None,
        format: OutputFormat::Json,
        header: true,
        delimiter: ',',
    };
    assert_eq!(opts.output_path(), "assets/juventus.csv.json");
    opts.format = OutputFormat::Yaml;
    assert_eq!(opts.output_path(), "assets/juventus.csv.yaml");
    opts.output = Some("out.yml".to_string());
    assert_eq!(opts.output_path(), "out.yml");
    assert_eq!(OutputFormat::Json.as_str(), "json");
}
