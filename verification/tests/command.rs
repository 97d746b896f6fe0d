use sticker_saver::parse_command;

fn strings(items: &[&str]) -> Vec<String> {
    items.iter().map(|s| s.to_string()).collect()
}

#[test]
fn phrase_alone_is_a_command_without_prefixes() {
    let commands = strings(&["表情转图片", "收", "偷", "存表情"]);
    assert!(parse_command("收", &[], &commands));
    assert!(parse_command("表情转图片", &[], &commands));
    assert!(parse_command("存表情", &[], &commands));
}

#[test]
fn text_is_trimmed_before_it_is_compared() {
    let commands = strings(&["收"]);
    assert!(parse_command("  收", &[], &commands));
    assert!(parse_command("收\n", &[], &commands));
    assert!(parse_command(" \t收 \r\n", &[], &commands));
}

#[test]
fn unicode_whitespace_is_trimmed() {
    let commands = strings(&["收"]);
    assert!(parse_command("\u{3000}收\u{3000}", &[], &commands));
    assert!(parse_command("\u{a0}收\u{2003}", &[], &commands));
    assert!(parse_command("\u{85}收", &[], &commands));
}

#[test]
fn characters_that_are_no_whitespace_are_kept() {
    let commands = strings(&["收"]);
    assert!(!parse_command("\u{200b}收", &[], &commands));
    assert!(!parse_command("收\u{feff}", &[], &commands));
    assert!(!parse_command("_收_", &[], &commands));
}

#[test]
fn only_the_whole_phrase_counts() {
    let commands = strings(&["收", "save"]);
    assert!(!parse_command("收到", &[], &commands));
    assert!(!parse_command("请收", &[], &commands));
    assert!(!parse_command("sav", &[], &commands));
    assert!(!parse_command("saved", &[], &commands));
    assert!(!parse_command("", &[], &commands));
    assert!(!parse_command("   ", &[], &commands));
}

#[test]
fn phrases_are_compared_with_case() {
    let commands = strings(&["save"]);
    assert!(parse_command("save", &[], &commands));
    assert!(!parse_command("Save", &[], &commands));
    assert!(!parse_command("SAVE", &[], &commands));
}

#[test]
fn whitespace_inside_a_phrase_is_kept() {
    let commands = strings(&["存 表情"]);
    assert!(parse_command(" 存 表情 ", &[], &commands));
    assert!(!parse_command("存表情", &[], &commands));
    assert!(!parse_command("存  表情", &[], &commands));
}

#[test]
fn nothing_is_a_command_without_phrases() {
    assert!(!parse_command("收", &[], &[]));
    assert!(!parse_command("", &[], &[]));
    assert!(!parse_command("/收", &strings(&["/"]), &[]));
}

#[test]
fn empty_phrase_matches_empty_text() {
    let commands = strings(&[""]);
    assert!(parse_command("", &[], &commands));
    assert!(parse_command("  \n", &[], &commands));
    assert!(parse_command("/", &strings(&["/"]), &commands));
    assert!(!parse_command("x", &[], &commands));
}

#[test]
fn prefix_is_taken_off() {
    let prefixes = strings(&["/", "."]);
    let commands = strings(&["收"]);
    assert!(parse_command("/收", &prefixes, &commands));
    assert!(parse_command(".收", &prefixes, &commands));
    assert!(!parse_command("!收", &prefixes, &commands));
}

#[test]
fn text_without_a_configured_prefix_is_no_command() {
    let prefixes = strings(&["/"]);
    let commands = strings(&["收", "/收"]);
    assert!(!parse_command("收", &prefixes, &commands));
    assert!(!parse_command(" 收 ", &prefixes, &commands));
    assert!(!parse_command("", &prefixes, &commands));
    assert!(!parse_command("收/", &prefixes, &commands));
}

#[test]
fn longest_prefix_is_taken_off() {
    let prefixes = strings(&["/", "//"]);
    assert!(parse_command("//foo", &prefixes, &strings(&["foo"])));
    assert!(!parse_command("//foo", &prefixes, &strings(&["/foo"])));
    assert!(parse_command("/foo", &prefixes, &strings(&["foo"])));
}

#[test]
fn order_of_the_prefixes_does_not_matter() {
    let prefixes = strings(&["//", "/"]);
    assert!(parse_command("//foo", &prefixes, &strings(&["foo"])));
    assert!(!parse_command("//foo", &prefixes, &strings(&["/foo"])));
    let prefixes = strings(&["#", "/", "##", "//", "///"]);
    assert!(parse_command("///foo", &prefixes, &strings(&["foo"])));
    assert!(parse_command("////foo", &prefixes, &strings(&["/foo"])));
    assert!(parse_command("##foo", &prefixes, &strings(&["foo"])));
}

#[test]
fn a_longer_prefix_that_does_not_fit_is_passed_over() {
    let prefixes = strings(&["/cmd", "/"]);
    assert!(parse_command("/收", &prefixes, &strings(&["收"])));
    assert!(parse_command("/cmd收", &prefixes, &strings(&["收"])));
    assert!(!parse_command("/cmd收", &prefixes, &strings(&["cmd收"])));
}

#[test]
fn rest_is_trimmed_after_the_prefix() {
    let prefixes = strings(&["/"]);
    let commands = strings(&["收"]);
    assert!(parse_command("/ 收", &prefixes, &commands));
    assert!(parse_command("  /\t收\n", &prefixes, &commands));
    assert!(!parse_command("/ 收 到", &prefixes, &commands));
}

#[test]
fn prefix_is_looked_for_in_the_trimmed_text() {
    let prefixes = strings(&[" /"]);
    let commands = strings(&["收"]);
    assert!(!parse_command(" /收", &prefixes, &commands));
    let prefixes = strings(&["/ "]);
    assert!(parse_command("/ 收", &prefixes, &commands));
    assert!(!parse_command("/收", &prefixes, &commands));
    assert!(!parse_command("/ ", &prefixes, &strings(&[""])));
}

#[test]
fn empty_prefix_fits_every_text() {
    let prefixes = strings(&[""]);
    let commands = strings(&["收"]);
    assert!(parse_command("收", &prefixes, &commands));
    assert!(parse_command(" 收 ", &prefixes, &commands));
    let prefixes = strings(&["", "/"]);
    assert!(parse_command("收", &prefixes, &commands));
    assert!(parse_command("/收", &prefixes, &commands));
    assert!(!parse_command("/收", &prefixes, &strings(&["/收"])));
}

#[test]
fn prefixes_of_several_bytes() {
    let prefixes = strings(&["。", "。。", "指令"]);
    let commands = strings(&["收"]);
    assert!(parse_command("。收", &prefixes, &commands));
    assert!(parse_command("。。收", &prefixes, &commands));
    assert!(parse_command("指令 收", &prefixes, &commands));
    assert!(!parse_command("指收", &prefixes, &commands));
    assert!(!parse_command("收", &prefixes, &commands));
}

#[test]
fn prefix_is_taken_off_once() {
    let prefixes = strings(&["/"]);
    assert!(parse_command("//收", &prefixes, &strings(&["/收"])));
    assert!(!parse_command("//收", &prefixes, &strings(&["收"])));
}

#[test]
fn duplicates_change_nothing() {
    let prefixes = strings(&["/", "/", "/"]);
    let commands = strings(&["收", "收"]);
    assert!(parse_command("/收", &prefixes, &commands));
    assert!(!parse_command("收", &prefixes, &commands));
}
