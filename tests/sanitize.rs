use llm_gateway::clean_code_response;

fn clean(s: &str) -> String {
    clean_code_response(s.to_string())
}

#[test]
fn strips_intro_fence_and_heading() {
    let input = "Here's the code:\n```\n# comment\nfn main() {}\n```";
    assert_eq!(clean(input), "fn main() {}\n```");
}

#[test]
fn keeps_text_without_skippable_prefix_trimmed() {
    let input = "  fn main() {\n    let x = 1;\n}  \n\n";
    assert_eq!(clean(input), input.trim());
}

#[test]
fn line_breaks_in_surrounding_white_space_are_trimmed() {
    let input = " \r\nfn a() {}\r\n";
    assert_eq!(clean(input), input.trim());
    assert_eq!(clean(input), "fn a() {}");
}

#[test]
fn cleaning_twice_is_cleaning_once() {
    let input = "Below is the code\n**Main**\n\n```rust\nfn a() {}\nfn b() {}\n```\n";
    let once = clean(input);
    assert_eq!(once, "fn a() {}\nfn b() {}\n```");
    assert_eq!(clean(&once), once);
}

#[test]
fn empty_text_stays_empty() {
    assert_eq!(clean(""), "");
}

#[test]
fn all_skippable_lines_give_empty_text() {
    assert_eq!(clean("\n\nHere's nothing\n```\n**done**\n# end\n"), "");
}

#[test]
fn crlf_line_breaks_become_line_feeds() {
    assert_eq!(clean("Below is it\r\nfn a()\r\nfn b()\r\n"), "fn a()\nfn b()");
}

#[test]
fn markers_after_the_first_kept_line_stay() {
    let input = "#heading\nlet a = 1;\n// Here's why\n```\n# note";
    assert_eq!(clean(input), "let a = 1;\n// Here's why\n```\n# note");
}

#[test]
fn heading_only_at_line_start_is_skipped() {
    assert_eq!(clean("x = 1 # not a heading\ny"), "x = 1 # not a heading\ny");
}

#[test]
fn unicode_white_space_is_trimmed() {
    assert_eq!(clean("\u{3000}code\u{a0}"), "code");
}
