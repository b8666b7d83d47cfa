use volcano::formatter::{
    dots, waybar, AsciiFormatter, DotFormatter, Formatter, TemplateFormatter, TEMPLATE_WAYBAR,
};
use volcano::player::PlayingInfo;

fn info(pos_us: u64, len_us: u64) -> PlayingInfo {
    PlayingInfo {
        position_us: pos_us,
        length_us: len_us,
        state: "Playing".to_string(),
        title: "Song".to_string(),
        artist: "Band".to_string(),
    }
}

#[test]
fn dots_without_position_mark_the_first_cell() {
    assert_eq!(dots(&[0, 0, 4, 4], 0, 0), "⢀⣿");
    assert_eq!(dots(&[], 0, 0), "");
}

#[test]
fn dots_mark_the_playback_position() {
    assert_eq!(dots(&[0, 0, 4, 4], 0, 4), "⢀⣿");
    assert_eq!(dots(&[0, 0, 4, 4], 1, 4), "⡀⣿");
    assert_eq!(dots(&[0, 0, 4, 4], 3, 4), "⣀⡿");
    assert_eq!(dots(&[0, 0, 4, 4], 4, 4), "⣀⣿");
    assert_eq!(dots(&[2, 3, 1, 0], 0, 0), "⢴⣀");
}

#[test]
fn dot_formatter_limits() {
    let f = DotFormatter {};
    assert_eq!(f.max_level(), 4);
    assert!(f.can_show(&[0, 4]));
    assert!(!f.can_show(&[0, 4, 1]));
    assert!(!f.can_show(&[0, 5]));
    assert_eq!(f.format(&[0, 0, 4, 4], &None), "⢀⣿");
    assert_eq!(f.format(&[0, 0, 4, 4], &Some(info(3, 4))), "⣀⡿");
}

#[test]
fn ascii_formatter_joins_levels() {
    let f = AsciiFormatter { max_level: 1000, separator: ";".to_string() };
    assert_eq!(f.max_level(), 1000);
    assert_eq!(f.format(&[1, 20, 300, 0], &None), "1;20;300;0");
    assert_eq!(f.format(&[], &None), "");
    assert_eq!(f.format(&[4294967295], &None), "4294967295");
}

#[test]
fn template_formatter_fills_placeholders() {
    let f = TemplateFormatter {
        inner: AsciiFormatter { max_level: 9, separator: ",".to_string() },
        template: TEMPLATE_WAYBAR.to_string(),
    };
    assert_eq!(f.max_level(), 9);
    assert_eq!(
        f.format(&[1, 2], &None),
        "{\"text\":\"1,2\",\"tooltip\":\"No Artist - No Title\",\"class\":\"Stopped\"}"
    );
    assert_eq!(
        f.format(&[3], &Some(info(0, 0))),
        "{\"text\":\"3\",\"tooltip\":\"Band - Song\",\"class\":\"Playing\"}"
    );
    let plain = TemplateFormatter {
        inner: DotFormatter {},
        template: "no placeholders".to_string(),
    };
    assert_eq!(plain.format(&[1, 1], &None), "no placeholders");
    assert!(!plain.can_show(&[1]));
}

#[test]
fn waybar_lines() {
    assert_eq!(
        waybar("⣿", &None),
        "{\"text\":\"⣿\",\"tooltip\":\"No player info available\",\"class\":\"stopped\"}"
    );
    assert_eq!(
        waybar("x", &Some(info(61_000_000, 3_661_000_000))),
        "{\"text\":\"x\",\"tooltip\":\"Band - Song [01:01 / 01:01:01]\",\"class\":\"playing\"}"
    );
}

#[test]
fn ascii_line_reads_back() {
    let f = AsciiFormatter { max_level: 1000, separator: " | ".to_string() };
    let levels = vec![0, 7, 1000, 42];
    let line = f.format(&levels, &None);
    let back: Vec<u32> = line.split(" | ").map(|s| s.parse().unwrap()).collect();
    assert_eq!(back, levels);
}
