use mir::colors::{MatrixColorScheme, TermColor};

#[test]
fn green_codes_select_the_classic_scheme() {
    assert_eq!(MatrixColorScheme::from_ansi_code(10), MatrixColorScheme::Green);
    assert_eq!(MatrixColorScheme::from_ansi_code(2), MatrixColorScheme::Green);
}

#[test]
fn out_of_range_code_falls_back_to_green() {
    assert_eq!(MatrixColorScheme::from_ansi_code(16), MatrixColorScheme::Green);
    assert_eq!(MatrixColorScheme::from_ansi_code(255), MatrixColorScheme::Green);
}

#[test]
fn red_code_selects_a_custom_scheme_with_white_head() {
    let scheme = MatrixColorScheme::from_ansi_code(9);
    assert_eq!(scheme, MatrixColorScheme::Custom(TermColor::Red));
    let (head, mid, dim, dark, darkest) = scheme.get_colors();
    assert_eq!(head, TermColor::White);
    assert_eq!(mid, TermColor::Red);
    assert_eq!(dim, TermColor::Red);
    assert_eq!(dark, TermColor::Red);
    assert_eq!(darkest, TermColor::Black);
    let base = scheme.get_base_rgb();
    assert_eq!(base, (255, 0, 0));
    assert_ne!(base, (0, 255, 0));
}

#[test]
fn classic_scheme_gradient_and_base() {
    let scheme = MatrixColorScheme::Green;
    assert_eq!(
        scheme.get_colors(),
        (
            TermColor::White,
            TermColor::Green,
            TermColor::DarkGreen,
            TermColor::DarkGreen,
            TermColor::Black,
        )
    );
    assert_eq!(scheme.get_base_rgb(), (0, 255, 0));
}

#[test]
fn every_ansi_code_maps_to_its_color() {
    let expected = [
        TermColor::Black,
        TermColor::DarkRed,
        TermColor::DarkGreen,
        TermColor::DarkYellow,
        TermColor::DarkBlue,
        TermColor::DarkMagenta,
        TermColor::DarkCyan,
        TermColor::Grey,
        TermColor::DarkGrey,
        TermColor::Red,
        TermColor::Green,
        TermColor::Yellow,
        TermColor::Blue,
        TermColor::Magenta,
        TermColor::Cyan,
        TermColor::White,
    ];
    for code in 0u8..16 {
        let scheme = MatrixColorScheme::from_ansi_code(code);
        if code == 2 || code == 10 {
            assert_eq!(scheme, MatrixColorScheme::Green);
        } else {
            assert_eq!(scheme, MatrixColorScheme::Custom(expected[code as usize]));
        }
    }
}

#[test]
fn unmapped_custom_base_falls_back_to_green_rgb() {
    let scheme = MatrixColorScheme::Custom(TermColor::DarkGreen);
    assert_eq!(scheme.get_base_rgb(), (0, 255, 0));
}
