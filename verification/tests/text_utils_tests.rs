use azlang::text::{decimal_to_string, i64_to_string, join_strings, trim_char};
use azlang::utils::extract_import_path;
use azlang::imports::{ImportWalk, WalkStep};

#[test]
fn integers_are_written_in_decimal() {
    assert_eq!(i64_to_string(0), "0");
    assert_eq!(i64_to_string(1234), "1234");
    assert_eq!(i64_to_string(-56), "-56");
    assert_eq!(i64_to_string(i64::MIN), "-9223372036854775808");
    assert_eq!(i64_to_string(i64::MAX), "9223372036854775807");
}

#[test]
fn decimals_drop_trailing_zeros() {
    assert_eq!(decimal_to_string(5, 3), "0.005");
    assert_eq!(decimal_to_string(-1230, 2), "-12.3");
    assert_eq!(decimal_to_string(1200, 2), "12");
    assert_eq!(decimal_to_string(0, 4), "0");
    assert_eq!(decimal_to_string(i64::MIN, 0), "-9223372036854775808");
}

#[test]
fn joining_and_trimming() {
    let parts = vec!["a".to_string(), "b".to_string(), "c".to_string()];
    assert_eq!(join_strings(&parts, ", "), "a, b, c");
    assert_eq!(join_strings(&Vec::new(), ", "), "");
    assert_eq!(trim_char("\"abc\"", '"'), "abc");
    assert_eq!(trim_char("\"\"", '"'), "");
}

#[test]
fn an_import_line_names_a_file() {
    assert_eq!(extract_import_path("ƏlavəEt(\"kitabxana.az\")").as_deref(), Some("kitabxana"));
    assert_eq!(extract_import_path("   ƏlavəEt(\"yol/fayl\")").as_deref(), Some("yol/fayl"));
    assert_eq!(extract_import_path("ƏlavəEt(\"a.az.az\")").as_deref(), Some("a"));
}

#[test]
fn other_lines_name_no_file() {
    assert_eq!(extract_import_path("sabit x = 5"), None);
    assert_eq!(extract_import_path("ƏlavəEt(kitab)"), None);
    assert_eq!(extract_import_path(""), None);
}

#[test]
fn an_unclosed_quote_takes_the_rest_of_the_line() {
    assert_eq!(extract_import_path("ƏlavəEt(\"yarım").as_deref(), Some("yarım"));
}

#[test]
fn import_lines_name_the_files_to_read() {
    let text = "ƏlavəEt(\"kitab.az\")\r\nçap(1)\n  ƏlavəEt(\"b\")\n";
    let paths = azlang::imports::import_paths(text);
    assert_eq!(paths, vec!["kitab.az".to_string(), "b.az".to_string()]);
    assert!(azlang::imports::import_paths("çap(1)").is_empty());
}

#[test]
fn the_walk_reads_imports_first_and_each_file_once() {
    let mut walk = ImportWalk::new();
    let step = walk.start("esas.az".to_string());
    assert!(matches!(&step, WalkStep::Read(p) if p == "esas.az"));
    let step = walk.file_read("ƏlavəEt(\"a\")\nƏlavəEt(\"a\")\nəsas".to_string());
    assert!(matches!(&step, WalkStep::Read(p) if p == "a.az"));
    let step = walk.file_read("ƏlavəEt(\"esas\")\nbir".to_string());
    assert!(matches!(step, WalkStep::Done));
    assert_eq!(walk.result, "ƏlavəEt(\"esas\")\nbir\nƏlavəEt(\"a\")\nƏlavəEt(\"a\")\nəsas\n");
}

#[test]
fn the_walk_ends_on_imports_that_import_each_other() {
    let mut walk = ImportWalk::new();
    let step = walk.start("a.az".to_string());
    assert!(matches!(&step, WalkStep::Read(p) if p == "a.az"));
    let step = walk.file_read("ƏlavəEt(\"b\")\nA".to_string());
    assert!(matches!(&step, WalkStep::Read(p) if p == "b.az"));
    let step = walk.file_read("ƏlavəEt(\"a\")\nB".to_string());
    assert!(matches!(step, WalkStep::Done));
    assert_eq!(walk.result, "ƏlavəEt(\"a\")\nB\nƏlavəEt(\"b\")\nA\n");
}
