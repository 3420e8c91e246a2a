use dbd::text::decimal_text;
use dbd::text::join2;
use dbd::text::join3;
use dbd::text::split;
use dbd::DumpQuery;

#[test]
fn decimal_numerals() {
    assert_eq!(decimal_text(0), "0");
    assert_eq!(decimal_text(7), "7");
    assert_eq!(decimal_text(10), "10");
    assert_eq!(decimal_text(3306), "3306");
    assert_eq!(decimal_text(65535), "65535");
    assert_eq!(decimal_text(u64::MAX), "18446744073709551615");
}

#[test]
fn splitting_at_a_separator() {
    assert_eq!(split("a,b,c", ','), vec!["a", "b", "c"]);
    assert_eq!(split("", ','), vec![""]);
    assert_eq!(split(",", ','), vec!["", ""]);
    assert_eq!(split("a,", ','), vec!["a", ""]);
    assert_eq!(split(",a,,b", ','), vec!["", "a", "", "b"]);
    assert_eq!(split("no separator", ','), vec!["no separator"]);
    assert_eq!(split("tä,bé", ','), vec!["tä", "bé"]);
    assert_eq!(split("/usr/bin:/bin", ':'), vec!["/usr/bin", "/bin"]);
}

#[test]
fn joining_texts() {
    assert_eq!(join2("-p", "secret"), "-psecret");
    assert_eq!(join2("", ""), "");
    assert_eq!(join3("db", ".", "table"), "db.table");
}

#[test]
fn dump_query_lists_the_tables() {
    assert_eq!(DumpQuery::parse(None).exclude_table_data, None);
    assert_eq!(DumpQuery::default().exclude_table_data, None);
    assert_eq!(
        DumpQuery::parse(Some("table_1,table_2")).exclude_table_data,
        Some(vec!["table_1".to_string(), "table_2".to_string()])
    );
    assert_eq!(DumpQuery::parse(Some("")).exclude_table_data, Some(vec!["".to_string()]));
}
