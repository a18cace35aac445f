use proxy_transport::banner::{
    banner, copyright_line, fits_every_slogan, logo_colors, logo_width, random_banner, slogan,
    LogoColor, SLOGAN_COUNT,
};

const LOGO: &str = "  ____  ____   _____  ____   __ __  _____  ____   __ __ \n |  _ \\|  _ \\ / _ \\ \\/ /\\ \\ / /  | ____|  _ \\ \n | |_) | |_) | | | \\  /  \\ V /   |  _| | | | |\n |  __/|  _ <| |_| /  \\   | |    | |___| |_| |\n |_|   |_| \\_\\\\___/_/\\_\\  |_|    |_____|____/ ";

#[test]
fn should_compile() {
    assert!(fits_every_slogan(LOGO));
    let b = random_banner(LOGO);
    assert!(b.copyright.ends_with(" (c) 2023"));
}

#[test]
fn slogans_are_the_four() {
    assert_eq!(SLOGAN_COUNT, 4);
    assert_eq!(slogan(0), "If not us, then who?");
    assert_eq!(slogan(1), "Bad actor you can trust");
    assert_eq!(slogan(2), "All your base belong to us");
    assert_eq!(slogan(3), "Play with us, or lose the game");
}

#[test]
fn copyright_follows_the_slogan() {
    assert_eq!(copyright_line("If not us, then who?"), "If not us, then who? (c) 2023");
    assert_eq!(copyright_line(""), " (c) 2023");
}

#[test]
fn palette_has_five_colours() {
    assert_eq!(
        logo_colors(),
        vec![
            LogoColor::Red,
            LogoColor::Yellow,
            LogoColor::Blue,
            LogoColor::Magenta,
            LogoColor::Cyan
        ]
    );
}

#[test]
fn width_is_that_of_the_longest_line() {
    assert_eq!(logo_width(""), 0);
    assert_eq!(logo_width("abc"), 3);
    assert_eq!(logo_width("ab\nabcd\nabc"), 4);
    assert_eq!(logo_width("abcde\n"), 5);
    assert_eq!(logo_width("\n\n"), 0);
    assert_eq!(logo_width("é\nab"), 2);
    assert_eq!(logo_width("ééé\nab"), 6);
    assert_eq!(logo_width(LOGO), LOGO.split("\n").map(|x| x.len()).max().unwrap());
    assert_eq!(logo_width(LOGO), 56);
}

#[test]
fn copyright_ends_where_the_logo_ends() {
    let b = banner(LOGO, 0, LogoColor::Blue);
    assert_eq!(b.color, LogoColor::Blue);
    assert_eq!(b.copyright, "If not us, then who? (c) 2023");
    assert_eq!(b.indent, 56 - 29);
    let b = banner(LOGO, 3, LogoColor::Red);
    assert_eq!(b.copyright, "Play with us, or lose the game (c) 2023");
    assert_eq!(b.indent, 56 - 39);
    let exact = "123456789012345678901234567890123456789";
    assert_eq!(banner(exact, 3, LogoColor::Cyan).indent, 0);
}

#[test]
fn narrow_logos_are_told_apart() {
    assert!(fits_every_slogan(LOGO));
    assert!(fits_every_slogan("123456789012345678901234567890123456789"));
    assert!(!fits_every_slogan("12345678901234567890123456789012345678"));
    assert!(!fits_every_slogan(""));
    assert!(!fits_every_slogan("12345678901234567890123456789\nabc"));
}

#[test]
fn random_banner_is_one_of_the_possible() {
    for _ in 0..200 {
        let b = random_banner(LOGO);
        assert!(logo_colors().contains(&b.color));
        let index = (0..SLOGAN_COUNT).find(|i| copyright_line(slogan(*i)) == b.copyright);
        assert!(index.is_some());
        assert_eq!(b.indent + b.copyright.len(), 56);
    }
}

#[test]
fn random_banner_varies() {
    let first = random_banner(LOGO);
    let mut other_slogan = false;
    let mut other_color = false;
    for _ in 0..2000 {
        let b = random_banner(LOGO);
        other_slogan = other_slogan || b.copyright != first.copyright;
        other_color = other_color || b.color != first.color;
    }
    assert!(other_slogan);
    assert!(other_color);
}
