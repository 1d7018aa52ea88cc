use rcli::{
    ConvertError, CsvOpts, OutFormat, XlsxOpts, align_row, build_record, build_records, clean_cells,
    convert_sheet, csv_to_text, encode_table, escape_cell, existence_result, is_blank_row,
    normalize_rows, parse_output_format, render_markdown, sheet_file, split_rows,
    verify_file_exists,
};

fn strs(cells: &[&str]) -> Vec<String> {
    cells.iter().map(|c| c.to_string()).collect()
}

fn table(rows: &[&[&str]]) -> Vec<Vec<String>> {
    rows.iter().map(|r| strs(r)).collect()
}

#[test]
fn it_works() {
    assert_eq!(2 + 2, 4);
}

#[test]
fn csv_to_pretty_json() {
    let out = csv_to_text("name,age\nAlice,30\nBob,25", b',', OutFormat::Json).unwrap();
    let expected = "[\n  {\n    \"name\": \"Alice\",\n    \"age\": \"30\"\n  },\n  {\n    \"name\": \"Bob\",\n    \"age\": \"25\"\n  }\n]";
    assert_eq!(out, expected);
}

#[test]
fn json_round_trip_keeps_keys_and_values() {
    let out = csv_to_text("zeta,alpha,mid\n1,2,3\n4,5,6\n", b',', OutFormat::Json).unwrap();
    let v: serde_json::Value = serde_json::from_str(&out).unwrap();
    let arr = v.as_array().unwrap();
    assert_eq!(arr.len(), 2);
    let keys: Vec<&String> = arr[0].as_object().unwrap().keys().collect();
    assert_eq!(keys, vec!["zeta", "alpha", "mid"]);
    assert_eq!(arr[1]["alpha"], serde_json::Value::String("5".to_string()));
    assert_eq!(arr[1]["mid"], serde_json::Value::String("6".to_string()));
}

#[test]
fn record_count_and_keys_follow_headers() {
    let headers = strs(&["a", "b", "a"]);
    let rows = table(&[&["1", "2", "3"], &["4"], &["5", "6", "7", "8"]]);
    let recs = build_records(&headers, &rows);
    assert_eq!(recs.len(), 3);
    for r in &recs {
        let keys: Vec<&str> = r.keys().map(|k| k.as_str()).collect();
        assert_eq!(keys, vec!["a", "b"]);
    }
    assert_eq!(recs[0]["a"], "3");
    assert_eq!(recs[1]["a"], "");
    assert_eq!(recs[1]["b"], "");
    assert_eq!(recs[2]["b"], "6");
}

#[test]
fn duplicate_header_last_value_wins() {
    let out = csv_to_text("a,a\n1,2\n", b',', OutFormat::Json).unwrap();
    assert_eq!(out, "[\n  {\n    \"a\": \"2\"\n  }\n]");
}

#[test]
fn build_record_pads_and_drops() {
    let r = build_record(&strs(&["x", "y"]), &strs(&["1", "2", "3"]));
    let pairs: Vec<(&str, &str)> = r.iter().map(|(k, v)| (k.as_str(), v.as_str().unwrap())).collect();
    assert_eq!(pairs, vec![("x", "1"), ("y", "2")]);
    let r = build_record(&strs(&["x", "y"]), &strs(&[]));
    let pairs: Vec<(&str, &str)> = r.iter().map(|(k, v)| (k.as_str(), v.as_str().unwrap())).collect();
    assert_eq!(pairs, vec![("x", ""), ("y", "")]);
}

#[test]
fn empty_rows_removed() {
    let raw = table(&[&["A", "B"], &["", ""], &["C", "D"]]);
    let t = normalize_rows(&raw, true, true);
    assert_eq!(t.headers, strs(&["A", "B"]));
    assert_eq!(t.rows, table(&[&["C", "D"]]));
}

#[test]
fn empty_rows_kept() {
    let raw = table(&[&["A", "B"], &["", ""], &["C", "D"]]);
    let t = normalize_rows(&raw, false, true);
    assert_eq!(t.headers, strs(&["A", "B"]));
    assert_eq!(t.rows, table(&[&["", ""], &["C", "D"]]));
}

#[test]
fn blank_leading_rows_do_not_become_headers() {
    let raw = table(&[&["  ", ""], &["h"], &["v"]]);
    let t = normalize_rows(&raw, true, true);
    assert_eq!(t.headers, strs(&["h"]));
    assert_eq!(t.rows, table(&[&["v"]]));
}

#[test]
fn all_rows_removed_gives_empty_table() {
    let raw = table(&[&["", ""], &[" "]]);
    let t = normalize_rows(&raw, true, true);
    assert!(t.headers.is_empty());
    assert!(t.rows.is_empty());
    assert_eq!(convert_sheet(&raw, OutFormat::Json, true, true), Ok("[]".to_string()));
    assert_eq!(convert_sheet(&raw, OutFormat::Markdown, true, true), Ok("| \n| \n".to_string()));
}

#[test]
fn whitespace_trimmed() {
    let raw = table(&[&["h"], &["  x  "]]);
    let t = normalize_rows(&raw, true, true);
    assert_eq!(t.rows, table(&[&["x"]]));
    assert_eq!(clean_cells(&strs(&["  x  ", "\ty\n"]), true), strs(&["x", "y"]));
}

#[test]
fn whitespace_kept() {
    let raw = table(&[&["h"], &["  x  "]]);
    let t = normalize_rows(&raw, true, false);
    assert_eq!(t.rows, table(&[&["  x  "]]));
    assert_eq!(clean_cells(&strs(&["  x  "]), false), strs(&["  x  "]));
}

#[test]
fn whitespace_only_row_is_blank_only_after_trimming() {
    let raw = table(&[&["h"], &["  "], &["v"]]);
    let t = normalize_rows(&raw, true, false);
    assert_eq!(t.rows, table(&[&["  "], &["v"]]));
    assert!(is_blank_row(&strs(&["", ""])));
    assert!(!is_blank_row(&strs(&["", " "])));
    assert!(is_blank_row(&strs(&[])));
}

#[test]
fn split_rows_takes_first_row_as_headers() {
    let t = split_rows(&table(&[&["a"], &[""], &["b"]]), false);
    assert_eq!(t.headers, strs(&["a"]));
    assert_eq!(t.rows, table(&[&[""], &["b"]]));
}

#[test]
fn markdown_escapes_pipe_and_newline() {
    assert_eq!(escape_cell("a|b"), "a\\|b");
    assert_eq!(escape_cell("x\ny"), "x<br>y");
    assert_eq!(escape_cell("plain"), "plain");
    let md = render_markdown(&strs(&["h1", "h2"]), &table(&[&["a|b", "x\ny"]]));
    assert_eq!(md, "| h1 | h2 | \n| --- | --- | \n| a\\|b | x<br>y | \n");
    assert_eq!(md.lines().count(), 3);
}

#[test]
fn markdown_aligns_rows_to_headers() {
    let md = render_markdown(&strs(&["a", "b"]), &table(&[&["1"], &["1", "2", "3"]]));
    assert_eq!(md, "| a | b | \n| --- | --- | \n| 1 |  | \n| 1 | 2 | \n");
}

#[test]
fn csv_pipeline_rejects_csv_and_markdown() {
    assert_eq!(csv_to_text("a\n1", b',', OutFormat::Csv), Err(ConvertError::UnsupportedFormat));
    assert_eq!(
        csv_to_text("a\n1", b',', OutFormat::Markdown),
        Err(ConvertError::UnsupportedFormat)
    );
}

#[test]
fn csv_pipeline_tolerates_ragged_input() {
    let out = csv_to_text("a,b\n1,2,3\n4\n", b',', OutFormat::Json).unwrap();
    assert_eq!(
        out,
        "[\n  {\n    \"a\": \"1\",\n    \"b\": \"2\"\n  },\n  {\n    \"a\": \"4\",\n    \"b\": \"\"\n  }\n]"
    );
}

#[test]
fn csv_pipeline_empty_and_header_only() {
    assert_eq!(csv_to_text("", b',', OutFormat::Json), Ok("[]".to_string()));
    assert_eq!(csv_to_text("a,b\n", b',', OutFormat::Toml), Ok("records = []\n".to_string()));
}

#[test]
fn csv_pipeline_uses_delimiter() {
    let out = csv_to_text("a;b\n1;2\n", b';', OutFormat::Json).unwrap();
    assert_eq!(out, "[\n  {\n    \"a\": \"1\",\n    \"b\": \"2\"\n  }\n]");
}

#[test]
fn csv_pipeline_yaml() {
    let out = csv_to_text("name,age\nAlice,30\n", b',', OutFormat::Yaml).unwrap();
    assert!(out.starts_with("- name: Alice\n"));
    let back: serde_yaml::Value = serde_yaml::from_str(&out).unwrap();
    assert_eq!(back[0]["age"], serde_yaml::Value::String("30".to_string()));
}

#[test]
fn csv_pipeline_toml_wraps_records() {
    let out = csv_to_text("name,age\nAlice,30\nBob,25\n", b',', OutFormat::Toml).unwrap();
    assert!(out.contains("[[records]]"));
    assert!(out.contains("name = \"Alice\""));
    let back: toml::Table = toml::from_str(&out).unwrap();
    let recs = back["records"].as_array().unwrap();
    assert_eq!(recs.len(), 2);
    assert_eq!(recs[1]["age"].as_str(), Some("25"));
}

#[test]
fn csv_output_quotes_and_aligns() {
    let out = encode_table(
        OutFormat::Csv,
        &strs(&["a", "b"]),
        &table(&[&["x,y", "z"], &["1"], &["1", "2", "3"]]),
    )
    .unwrap();
    assert_eq!(out, "a,b\n\"x,y\",z\n1,\n1,2\n");
}

#[test]
fn sheet_conversion_is_repeatable() {
    let raw = table(&[&[" A ", "B"], &["", ""], &["C", "D|E"]]);
    for f in [OutFormat::Json, OutFormat::Yaml, OutFormat::Toml, OutFormat::Csv, OutFormat::Markdown] {
        let a = convert_sheet(&raw, f, true, true).unwrap();
        let b = convert_sheet(&raw, f, true, true).unwrap();
        assert_eq!(a, b);
    }
}

#[test]
fn sheet_json_pads_missing_cells() {
    let raw = table(&[&["A", "B"], &["1"]]);
    let out = convert_sheet(&raw, OutFormat::Json, true, true).unwrap();
    assert_eq!(out, "[\n  {\n    \"A\": \"1\",\n    \"B\": \"\"\n  }\n]");
}

#[test]
fn format_names_parse_ignoring_case() {
    assert_eq!(parse_output_format("json"), Ok(OutFormat::Json));
    assert_eq!(parse_output_format("YAML"), Ok(OutFormat::Yaml));
    assert_eq!(parse_output_format("Toml"), Ok(OutFormat::Toml));
    assert_eq!(parse_output_format("csv"), Ok(OutFormat::Csv));
    assert_eq!(parse_output_format("MarkDown"), Ok(OutFormat::Markdown));
    assert_eq!(parse_output_format("xml"), Err(ConvertError::InvalidFormat));
    assert_eq!("yaml".parse::<OutFormat>(), Ok(OutFormat::Yaml));
    assert_eq!(OutFormat::Markdown.as_str(), "markdown");
    assert!(OutFormat::Json.single_table());
    assert!(!OutFormat::Csv.single_table());
}

#[test]
fn sheet_file_names() {
    assert_eq!(sheet_file("book", "Sheet1", OutFormat::Markdown), "book_Sheet1.markdown");
    assert_eq!(sheet_file("data", "S", OutFormat::Json), "data_S.json");
}

#[test]
fn align_row_pads_and_cuts() {
    assert_eq!(align_row(3, &strs(&["a"])), strs(&["a", "", ""]));
    assert_eq!(align_row(1, &strs(&["a", "b"])), strs(&["a"]));
}

#[test]
fn missing_input_is_reported() {
    assert_eq!(
        verify_file_exists("/no/such/dir/input-file.csv"),
        Err("File does not exist")
    );
    assert_eq!(existence_result("in.csv", true), Ok("in.csv".to_string()));
    assert_eq!(existence_result("in.csv", false), Err("File does not exist"));
}

#[test]
fn option_defaults() {
    let o = CsvOpts {
        input: "in.csv".to_string(),
        output: None,
        delimiter: ',',
        header: true,
        format: OutFormat::Yaml,
    };
    assert_eq!(o.output_path(), "output.yaml");
    assert_eq!(o.delimiter_byte(), Some(b','));
    let x = XlsxOpts {
        input: "b.xlsx".to_string(),
        output_dir: None,
        format: OutFormat::Csv,
        keep_empty_rows: false,
        keep_whitespace: true,
    };
    assert_eq!(x.output_dir_or_default(), ".");
    assert!(x.remove_empty_rows());
    assert!(!x.trim_whitespace());
}
