use sticker_saver::parse_command;
use sticker_saver::text::is_white_space;

#[test]
fn whitespace_is_what_the_standard_library_takes_for_it() {
    for c in '\0'..=char::MAX {
        assert_eq!(is_white_space(c), c.is_whitespace(), "{:?}", c);
    }
}

#[test]
fn whitespace_characters_are_these() {
    let all: Vec<char> = ('\0'..=char::MAX).filter(|c| is_white_space(*c)).collect();
    assert_eq!(
        all,
        vec![
            '\t', '\n', '\u{b}', '\u{c}', '\r', ' ', '\u{85}', '\u{a0}', '\u{1680}', '\u{2000}',
            '\u{2001}', '\u{2002}', '\u{2003}', '\u{2004}', '\u{2005}', '\u{2006}', '\u{2007}',
            '\u{2008}', '\u{2009}', '\u{200a}', '\u{2028}', '\u{2029}', '\u{202f}', '\u{205f}',
            '\u{3000}',
        ]
    );
}

#[test]
fn neighbours_of_whitespace_are_none() {
    for c in ['\u{8}', '\u{e}', '\u{1f}', '!', '\u{84}', '\u{86}', '\u{9f}', '\u{a1}', '\u{1fff}',
        '\u{200b}', '\u{200c}', '\u{200d}', '\u{2027}', '\u{202a}', '\u{202e}', '\u{2030}',
        '\u{205e}', '\u{2060}', '\u{2fff}', '\u{3001}', '\u{180e}', '\u{feff}', '\0', 'a', '收']
    {
        assert!(!is_white_space(c), "{:?}", c);
    }
}

#[test]
fn trimming_agrees_with_the_standard_library() {
    let texts = [
        "", " ", "   ", "a", " a", "a ", " a ", "\ta\n", "a b", " a b ", "  a  b  ", "\u{3000}a",
        "a\u{3000}", "\u{2003}\u{a0} a \u{85}\u{1680}", "\r\n", "\u{200b}", " \u{200b} ",
        "收", " 收 ", "\n收\n收\n", "\u{b}\u{c}x\u{2028}\u{2029}", "x\u{202f}\u{205f}",
    ];
    for text in texts {
        let trimmed = vec![text.trim().to_string()];
        assert!(parse_command(text, &[], &trimmed), "{:?}", text);
        if text.trim() != text {
            assert!(!parse_command(text, &[], &[text.to_string()]), "{:?}", text);
        }
    }
}
