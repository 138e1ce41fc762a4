use aprz::report_text::{format_keywords_or_categories, write_spacer_row};

#[test]
fn test_format_keywords_or_categories_single() {
    let mut output = String::new();
    format_keywords_or_categories("rust", "keywords", &mut output);
    assert!(output.contains("#rust"));
    assert!(output.contains("https://crates.io/keywords/rust"));
}

#[test]
fn test_format_keywords_or_categories_multiple() {
    let mut output = String::new();
    format_keywords_or_categories("rust, web, async", "keywords", &mut output);
    assert!(output.contains("#rust"));
    assert!(output.contains("#web"));
    assert!(output.contains("#async"));
    assert!(output.contains(", "));
}

#[test]
fn test_format_keywords_or_categories_empty() {
    let mut output = String::new();
    format_keywords_or_categories("", "keywords", &mut output);
    assert_eq!(output, "");
}

#[test]
fn test_format_keywords_with_special_chars() {
    let mut output = String::new();
    format_keywords_or_categories("A&B, C<D", "keywords", &mut output);
    assert!(output.contains("&amp;"));
    assert!(output.contains("&lt;"));
}

#[test]
fn keyword_links_exact_text() {
    let mut output = String::from(">");
    format_keywords_or_categories(" a b ,, é", "categories", &mut output);
    assert_eq!(
        output,
        ">\
<a href=\"https://crates.io/categories/a%20b\" target=\"_blank\" rel=\"noopener noreferrer\">#a b</a>, \
<a href=\"https://crates.io/categories/%C3%A9\" target=\"_blank\" rel=\"noopener noreferrer\">#é</a>"
    );
    let mut only_commas = String::new();
    format_keywords_or_categories(" , ", "keywords", &mut only_commas);
    assert_eq!(only_commas, " , ");
}

#[test]
fn spacer_row_has_a_cell_per_crate_and_one_for_names() {
    let mut output = String::new();
    write_spacer_row(&mut output, 2);
    assert_eq!(
        output,
        "          <tr class=\"category-spacer\">\n            <td></td>\n            <td></td>\n            <td></td>\n          </tr>\n"
    );
}
