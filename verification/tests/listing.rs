use nexus_client::listing::{DirFormat, DirPrinter};
use nexus_client::model::DirEntry;
use nexus_client::text::{decimal_i64, decimal_u64, pad_left};

fn entry(path: &str, name: &str, leaf: bool, size: i64) -> DirEntry {
    DirEntry {
        resource_uri: String::new(),
        relative_path: path.to_string(),
        text: name.to_string(),
        leaf,
        last_modified: "2023-02-03 04:05:06.0 UTC".to_string(),
        size_on_disk: size,
    }
}

#[test]
fn short_line_marks_directories() {
    let printer = DirPrinter { format: DirFormat::Short };
    assert_eq!(printer.print_entry(&entry("/a.txt", "a.txt", true, 10)), "a.txt");
    assert_eq!(printer.print_entry(&entry("/sub/", "sub", false, -1)), "sub/");
}

#[test]
fn long_line_aligns_size_and_drops_leading_slash() {
    let printer = DirPrinter { format: DirFormat::Long };
    assert_eq!(
        printer.print_entry(&entry("/org/a.txt", "a.txt", true, 10)),
        "2023-02-03 04:05:06.0 UTC\t        10\torg/a.txt"
    );
    assert_eq!(
        printer.print_entry(&entry("/org/sub/", "sub", false, -1)),
        "2023-02-03 04:05:06.0 UTC\t         /\torg/sub/"
    );
    assert_eq!(
        printer.print_entry(&entry("/big", "big", true, 123456789012)),
        "2023-02-03 04:05:06.0 UTC\t123456789012\tbig"
    );
}

#[test]
fn print_dir_writes_one_line_for_each_entry() {
    let printer = DirPrinter { format: DirFormat::Short };
    let entries = vec![entry("/b/", "b", false, -1), entry("/a", "a", true, 1)];
    assert_eq!(printer.print_dir(&entries), vec!["b/".to_string(), "a".to_string()]);
    assert!(printer.print_dir(&[]).is_empty());
}

#[test]
fn only_short_and_long_formats_write_lines() {
    let e = entry("/a", "a", true, 1);
    assert!(DirPrinter { format: DirFormat::Short }.can_print(&e));
    assert!(DirPrinter { format: DirFormat::Long }.can_print(&e));
    assert!(!DirPrinter { format: DirFormat::Json }.can_print(&e));
    assert!(!DirPrinter { format: DirFormat::Xml }.can_print(&e));
    assert!(!DirPrinter { format: DirFormat::Long }.can_print(&entry("", "a", true, 1)));
    assert!(!DirPrinter { format: DirFormat::Long }.can_print(&entry("é/a", "a", true, 1)));
    assert!(DirPrinter { format: DirFormat::Short }.can_print(&entry("", "a", true, 1)));
}

#[test]
fn decimal_notation() {
    assert_eq!(decimal_u64(0), "0");
    assert_eq!(decimal_u64(7), "7");
    assert_eq!(decimal_u64(10), "10");
    assert_eq!(decimal_u64(u64::MAX), "18446744073709551615");
    assert_eq!(decimal_i64(-1), "-1");
    assert_eq!(decimal_i64(i64::MIN), "-9223372036854775808");
    assert_eq!(decimal_i64(i64::MAX), "9223372036854775807");
    assert_eq!(decimal_i64(404), "404");
}

#[test]
fn padding_counts_characters() {
    assert_eq!(pad_left("ab", 5), "   ab");
    assert_eq!(pad_left("abcdef", 5), "abcdef");
    assert_eq!(pad_left("", 2), "  ");
    assert_eq!(pad_left("éé", 3), " éé");
    assert_eq!(pad_left("x", 0), "x");
}
