use pe_plugin_loader::text::{chars_of, escape_separators, normalize_path, substitute_dir_macro, trim_quotes_of};

fn v(x: &str) -> Vec<char> {
    x.chars().collect()
}

#[test]
fn normalize_collapses_mixed_slash_runs() {
    assert_eq!(normalize_path("C:\\\\a//b\\/c"), "C:\\a\\b\\c");
    assert_eq!(normalize_path("/x/"), "\\x\\");
    assert_eq!(normalize_path(""), "");
    assert_eq!(normalize_path("plain"), "plain");
}

#[test]
fn escaping_doubles_each_separator_once() {
    assert_eq!(escape_separators(&v("a\\b\\\\c")), v("a\\\\b\\\\\\\\c"));
    assert_eq!(escape_separators(&v("a/b")), v("a/b"));
    assert_eq!(escape_separators(&v("")), v(""));
}

#[test]
fn macro_with_separator_is_replaced_before_bare_macro() {
    let r = substitute_dir_macro(&v("%FN%\\a;%FN%b;%FN%"), &v("D:\\p"));
    assert_eq!(r, v("D:\\p\\a;D:\\p\\b;D:\\p\\"));
    let r2 = substitute_dir_macro(&v("%FN%\\a"), &v("D:\\p\\"));
    assert_eq!(r2, v("D:\\p\\a"));
}

#[test]
fn chars_of_keeps_every_character() {
    assert_eq!(chars_of("快捷a\\"), vec!['快', '捷', 'a', '\\']);
}

#[test]
fn quotes_are_trimmed_from_both_ends() {
    assert_eq!(trim_quotes_of("\"D:\\a.ce\""), "D:\\a.ce");
    assert_eq!(trim_quotes_of("\"\"x\"y\""), "x\"y");
    assert_eq!(trim_quotes_of("\"\""), "");
    assert_eq!(trim_quotes_of("plain"), "plain");
}
