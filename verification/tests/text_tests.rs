use retro_chat::cli::{launch, Launch, BACKLOG, PORT};
use retro_chat::input::{classify, frame, help_text, Command, Submission};
use retro_chat::text::{chars_of, is_space_char, same_text, string_of, trim};
use retro_chat::theme::{create_retro_theme, retro_color_of, Border, PaletteRole, Rgb};

#[test]
fn chars_and_strings_convert_both_ways() {
    let chars = chars_of("héllo┌");
    assert_eq!(chars, vec!['h', 'é', 'l', 'l', 'o', '┌']);
    assert_eq!(string_of(&chars, 1, 4), "éll");
    assert_eq!(string_of(&chars, 0, 6), "héllo┌");
    assert_eq!(string_of(&chars, 3, 3), "");
    assert_eq!(chars_of(""), Vec::<char>::new());
}

#[test]
fn same_text_compares_by_characters() {
    assert!(same_text("", ""));
    assert!(same_text("/help", "/help"));
    assert!(!same_text("/help", "/helps"));
    assert!(!same_text("/help", "/hel"));
    assert!(!same_text("/help", "/held"));
}

#[test]
fn trim_agrees_with_the_standard_library() {
    let samples = [
        "",
        " ",
        "alice",
        "  alice  ",
        "alice\n",
        "alice\r\n",
        "\t al ice \u{b}\u{c}",
        "\u{85}\u{a0}x\u{1680}\u{2000}\u{200a}",
        "\u{2028}\u{2029}\u{202f}\u{205f}\u{3000}",
        "\u{200b}zero width is no space\u{200b}",
        "\u{1f}control is no space\u{1c}",
        " \n\t ",
    ];
    for s in samples {
        assert_eq!(trim(s), s.trim());
    }
}

#[test]
fn is_space_char_agrees_with_the_standard_library() {
    let mut code: u32 = 0;
    while code <= 0x3100 {
        if let Some(c) = char::from_u32(code) {
            assert_eq!(is_space_char(c), c.is_whitespace());
        }
        code += 1;
    }
}

#[test]
fn classify_knows_the_three_commands() {
    assert_eq!(classify(""), Submission::Nothing);
    assert_eq!(classify("/help"), Submission::Local(Command::Help));
    assert_eq!(classify("/clear"), Submission::Local(Command::Clear));
    assert_eq!(classify("/quit"), Submission::Local(Command::Quit));
    assert_eq!(classify("/Help"), Submission::Chat);
    assert_eq!(classify("/quit "), Submission::Chat);
    assert_eq!(classify(" /clear"), Submission::Chat);
    assert_eq!(classify("/me waves"), Submission::Chat);
    assert_eq!(classify("/"), Submission::Chat);
    assert_eq!(classify("hello"), Submission::Chat);
    assert_eq!(classify(" "), Submission::Chat);
}

#[test]
fn frame_adds_the_end_of_the_line() {
    assert_eq!(frame("hello"), "hello\n");
    assert_eq!(frame(""), "\n");
}

#[test]
fn help_text_lists_the_commands() {
    assert_eq!(
        help_text(),
        "\n=== Commands ===\n/help - Show this help\n/clear - Clear messages\n/quit - Exit chat\n\n"
    );
}

#[test]
fn retro_theme_is_dark_blue_and_green() {
    let theme = create_retro_theme();
    assert!(theme.shadow);
    assert_eq!(theme.borders, Border::Simple);
    assert_eq!(
        theme.palette,
        vec![
            (PaletteRole::Background, Rgb { red: 0, green: 0, blue: 20 }),
            (PaletteRole::View, Rgb { red: 0, green: 0, blue: 20 }),
            (PaletteRole::Primary, Rgb { red: 0, green: 255, blue: 0 }),
            (PaletteRole::TitlePrimary, Rgb { red: 0, green: 255, blue: 128 }),
            (PaletteRole::Secondary, Rgb { red: 255, green: 191, blue: 0 }),
            (PaletteRole::Highlight, Rgb { red: 0, green: 255, blue: 255 }),
            (PaletteRole::HighlightInactive, Rgb { red: 0, green: 128, blue: 128 }),
            (PaletteRole::Shadow, Rgb { red: 0, green: 0, blue: 40 }),
        ]
    );
    assert_eq!(retro_color_of(PaletteRole::Shadow), Rgb { red: 0, green: 0, blue: 40 });
}

#[test]
fn launch_reads_the_first_argument() {
    let args = |list: &[&str]| list.iter().map(|a| a.to_string()).collect::<Vec<String>>();
    assert_eq!(launch(&args(&[])), Launch::Refused);
    assert_eq!(launch(&args(&["chat"])), Launch::Refused);
    assert_eq!(launch(&args(&["chat", ""])), Launch::Refused);
    assert_eq!(launch(&args(&["chat", "  "])), Launch::Refused);
    assert_eq!(launch(&args(&["chat", "--serve"])), Launch::Serve);
    assert_eq!(launch(&args(&["chat", "--serve", "x"])), Launch::Serve);
    assert_eq!(launch(&args(&["chat", "alice"])), Launch::Join("alice".to_string()));
    assert_eq!(launch(&args(&["chat", " bob ", "x"])), Launch::Join(" bob ".to_string()));
    assert_eq!(launch(&args(&["chat", "--Serve"])), Launch::Join("--Serve".to_string()));
    assert_eq!(BACKLOG, 100);
    assert_eq!(PORT, 8082);
}
