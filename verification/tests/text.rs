use brainspread::text::{characters, is_whitespace, split, trim};

#[test]
fn white_space_agrees_with_the_standard_library_on_every_character() {
    let mut code: u32 = 0;
    while code <= 0x10FFFF {
        if let Some(c) = char::from_u32(code) {
            assert_eq!(is_whitespace(c), c.is_whitespace(), "code point {:#x}", code);
        }
        code += 1;
    }
}

#[test]
fn trim_removes_white_space_at_both_ends_only() {
    assert_eq!(trim("  a b \n"), "a b");
    assert_eq!(trim("\t\u{3000}x\u{a0}"), "x");
    assert_eq!(trim("x"), "x");
    assert_eq!(trim(""), "");
    assert_eq!(trim(" \n\t "), "");
    assert_eq!(trim("\u{200b}a"), "\u{200b}a");
}

#[test]
fn trim_agrees_with_the_standard_library() {
    let samples = ["", " ", "a", " a", "a ", " a ", "\n\na\tb\r\n", "é \u{2003}", "\u{85}x\u{1680}"];
    for s in samples {
        assert_eq!(trim(s), s.trim());
    }
}

#[test]
fn split_cuts_at_every_separator() {
    assert_eq!(split("a,b,c", ','), vec!["a", "b", "c"]);
    assert_eq!(split("", ','), vec![""]);
    assert_eq!(split(",", ','), vec!["", ""]);
    assert_eq!(split("a,", ','), vec!["a", ""]);
    assert_eq!(split(",a", ','), vec!["", "a"]);
    assert_eq!(split("a,,b", ','), vec!["a", "", "b"]);
    assert_eq!(split("no separator", ','), vec!["no separator"]);
}

#[test]
fn split_agrees_with_the_standard_library() {
    let samples = ["", ",", "a", "a,b", ",,", "é,ü,", " x , y "];
    for s in samples {
        let expected: Vec<String> = s.split(',').map(|p| p.to_string()).collect();
        assert_eq!(split(s, ','), expected);
    }
}

#[test]
fn characters_lists_each_character() {
    assert_eq!(characters("aé\u{1F600}"), vec!['a', 'é', '\u{1F600}']);
    assert_eq!(characters(""), Vec::<char>::new());
}
