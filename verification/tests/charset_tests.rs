use mir::charset::{get_charset_by_name, glitch_chars, matrix_chars_classic};

#[test]
fn named_palettes_have_their_sizes() {
    assert_eq!(get_charset_by_name("katakana").len(), 45);
    assert_eq!(get_charset_by_name("alphanumeric").len(), 36);
    assert_eq!(get_charset_by_name("symbols").len(), 18);
    assert_eq!(get_charset_by_name("greek").len(), 24);
}

#[test]
fn lookup_ignores_ascii_case() {
    assert_eq!(get_charset_by_name("KATAKANA"), get_charset_by_name("katakana"));
    assert_eq!(get_charset_by_name("Greek"), get_charset_by_name("greek"));
}

#[test]
fn classic_is_all_four_palettes_in_order() {
    let classic = get_charset_by_name("classic");
    assert_eq!(classic.len(), 45 + 36 + 18 + 24);
    assert_eq!(classic, matrix_chars_classic());
    assert_eq!(classic[0], 'ｱ');
    assert_eq!(classic[44], 'ﾝ');
    assert_eq!(classic[45], '0');
    assert_eq!(classic[80], 'Z');
    assert_eq!(classic[81], ':');
    assert_eq!(classic[99], 'Α');
    assert_eq!(classic[122], 'Ω');
}

#[test]
fn unknown_name_gives_the_classic_palette() {
    assert_eq!(get_charset_by_name("does-not-exist"), matrix_chars_classic());
    assert_eq!(get_charset_by_name(""), matrix_chars_classic());
}

#[test]
fn glitch_glyphs_are_the_block_characters() {
    assert_eq!(glitch_chars(), vec!['▒', '▓', '░', '█']);
}

#[test]
fn alphanumeric_palette_contents() {
    let alnum = get_charset_by_name("alphanumeric");
    assert_eq!(alnum[0], '0');
    assert_eq!(alnum[9], '9');
    assert_eq!(alnum[10], 'A');
    assert_eq!(alnum[35], 'Z');
}
