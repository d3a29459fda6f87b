use who_me::cli::{parse_args, Command};
use who_me::date::Date;
use unicode_width::UnicodeWidthStr;
use who_me::layout::{dashboard_columns, pad_to_width, truncate_to_width, wrap_text};

fn display_width(value: &str) -> usize {
    UnicodeWidthStr::width(value)
}
use who_me::model::{
    Calendar, CalendarDay, Document, IdentityStatus, Item, MoodRating, Topic, DATA_VERSION,
    LEGACY_DATA_VERSION,
};
use who_me::sync::validate_github_url;
use who_me::theme::{parse_hex, HexColors, Palette, Rgb};

#[test]
fn parses_the_public_cli() {
    assert_eq!(parse_args(Vec::<String>::new()).unwrap(), Command::Run);
    assert_eq!(parse_args(vec!["--help".to_string()]).unwrap(), Command::Help);
    assert_eq!(parse_args(vec!["-V".to_string()]).unwrap(), Command::Version);
    assert!(parse_args(vec!["--unknown".to_string()]).is_err());
    assert!(parse_args(vec!["one".to_string(), "two".to_string()]).is_err());
}

#[test]
fn cli_error_names_the_arguments() {
    let error = parse_args(vec!["one".to_string(), "two".to_string()]).unwrap_err();
    assert_eq!(error, "unexpected argument(s): one two\n\nRun `who-me --help` for usage.");
    assert_eq!(parse_args(vec!["--version".to_string()]).unwrap(), Command::Version);
    assert_eq!(parse_args(vec!["-h".to_string()]).unwrap(), Command::Help);
}

#[test]
fn validates_safe_github_urls() {
    assert!(validate_github_url("https://github.com/person/private").is_ok());
    assert!(validate_github_url("git@github.com:person/private.git").is_ok());
    assert!(validate_github_url("ssh://git@github.com/person/private").is_ok());
    assert!(validate_github_url("https://token@github.com/person/private").is_err());
    assert!(validate_github_url("https://example.com/person/private").is_err());
    assert!(validate_github_url("https://github.com/person").is_err());
}

#[test]
fn uses_the_documented_adaptive_column_thresholds() {
    assert_eq!(dashboard_columns(60), 1);
    assert_eq!(dashboard_columns(72), 2);
    assert_eq!(dashboard_columns(119), 2);
    assert_eq!(dashboard_columns(120), 3);
    assert_eq!(dashboard_columns(168), 4);
}

#[test]
fn wraps_wide_and_long_text_without_exceeding_width() {
    for width in 1..=8 {
        for line in wrap_text("hello extraordinary界界 e\u{301} world", width) {
            assert!(display_width(&line) <= width, "width {width}: {line:?}");
        }
    }
}

#[test]
fn wraps_words_and_splits_long_ones() {
    assert_eq!(wrap_text("hello world", 5), vec!["hello".to_string(), "world".to_string()]);
    assert_eq!(wrap_text("abcdefgh", 3), vec!["abc".to_string(), "def".to_string(), "gh".to_string()]);
    assert_eq!(wrap_text("", 4), vec![String::new()]);
}

#[test]
fn truncates_and_pads_by_display_width() {
    assert_eq!(truncate_to_width("界界界", 5), "界界…");
    assert_eq!(truncate_to_width("abc", 1), "…");
    assert_eq!(truncate_to_width("abc", 0), "");
    assert_eq!(truncate_to_width("abc", 10), "abc");
    assert_eq!(pad_to_width("ab", 4), "ab  ");
    assert_eq!(pad_to_width("abcdef", 4), "abcdef");
}

#[test]
fn rejects_invalid_colors() {
    assert!(parse_hex("blue").is_err());
    assert!(parse_hex("#1234").is_err());
    assert!(parse_hex("#zzzzzz").is_err());
}

#[test]
fn reads_a_hex_color() {
    assert_eq!(parse_hex("#1a2B3c").unwrap(), Rgb { r: 0x1a, g: 0x2b, b: 0x3c });
    assert_eq!(
        parse_hex("blue").unwrap_err(),
        "expected #RRGGBB color, got \"blue\""
    );
    assert!(parse_hex("#+12345").is_err());
    assert!(parse_hex("#+1+1+1").is_err());
    assert!(parse_hex("#éa1234").is_err());
    assert!(parse_hex("#12345é").is_err());
    assert!(parse_hex("#1g2345").is_err());
}

#[test]
fn default_document_is_valid_and_versioned() {
    let document = Document::default();
    assert_eq!(document.version, DATA_VERSION);
    assert!(document.validate().is_ok());
}

#[test]
fn validation_rejects_bad_version_and_blank_text() {
    let mut document = Document {
        version: 99,
        topics: Vec::new(),
        calendar: Calendar::default(),
        judgements: Vec::new(),
    };
    assert!(document.validate().unwrap_err().contains("unsupported"));

    document.version = DATA_VERSION;
    document.topics.push(Topic {
        name: "  ".into(),
        status: IdentityStatus::Active,
        items: Vec::new(),
    });
    assert!(document.validate().unwrap_err().contains("empty name"));
}

#[test]
fn upgrades_v1_and_validates_calendar_days() {
    let mut legacy = Document {
        version: LEGACY_DATA_VERSION,
        ..Document::default()
    };
    assert!(legacy.upgrade().unwrap());
    assert_eq!(legacy.version, DATA_VERSION);

    let date = Date::from_ymd(2026, 8, 28).unwrap();
    legacy.ensure_calendar_day(date).entries.push(Item {
        text: "Plan launch".into(),
        done: false,
    });
    assert!(legacy.validate().is_ok());
    let copy = legacy.calendar.days[0].clone();
    legacy.calendar.days.push(copy);
    assert!(legacy.validate().unwrap_err().contains("more than once"));
}

#[test]
fn upgrade_refuses_unknown_versions() {
    let mut current = Document::default();
    assert!(!current.upgrade().unwrap());
    let mut future = Document {
        version: 99,
        ..Document::default()
    };
    assert_eq!(
        future.upgrade().unwrap_err(),
        "unsupported data version 99 (this build supports version 3)"
    );
    assert_eq!(future.version, 99);
}

#[test]
fn calendar_validation_rejects_empty_days_and_blank_entries() {
    let date = Date::from_ymd(2026, 8, 28).unwrap();
    let mut document = Document::default();
    document.calendar.days.push(CalendarDay {
        date,
        mood: None,
        entries: Vec::new(),
    });
    assert!(document.validate().unwrap_err().contains("has no entries"));

    document.calendar.days[0].entries.push(Item {
        text: "  ".into(),
        done: false,
    });
    assert!(document.validate().unwrap_err().contains("is empty"));
}

#[test]
fn identity_status_defaults_and_round_trips() {
    assert_eq!(IdentityStatus::default_status(), IdentityStatus::Active);
    for status in IdentityStatus::ALL {
        assert_eq!(IdentityStatus::from_key(status.key()), Some(status));
    }
    assert_eq!(IdentityStatus::from_key("retired"), None);
}

#[test]
fn mood_ratings_round_trip_through_their_numbers() {
    for mood in MoodRating::ALL {
        assert_eq!(MoodRating::try_from(mood.value()), Ok(mood));
    }
    assert_eq!(MoodRating::try_from(0), Err(0));
    assert_eq!(MoodRating::try_from(6), Err(6));
}

const COLORS: &str = r##"
accent = "#112233"
selection = "#223344"
muted = "#334455"
background = "#445566"
lighter_background = "#556677"
foreground = "#667788"
bright_foreground = "#778899"
green = "#88aa44"
red = "#cc4455"
"##;

fn hex_colors(source: &str) -> HexColors {
    let table: toml::Table = toml::from_str(source).unwrap();
    let color = |name: &str| table[name].as_str().unwrap().to_string();
    HexColors {
        accent: color("accent"),
        selection: color("selection"),
        muted: color("muted"),
        background: color("background"),
        lighter_background: color("lighter_background"),
        foreground: color("foreground"),
        bright_foreground: color("bright_foreground"),
        green: color("green"),
        red: color("red"),
    }
}

#[test]
fn parses_an_omarchy_palette() {
    let theme = Palette::from_hex_colors(&hex_colors(COLORS)).unwrap();
    assert_eq!(theme.accent, Rgb { r: 0x11, g: 0x22, b: 0x33 });
    assert_eq!(theme.panel, Rgb { r: 0x55, g: 0x66, b: 0x77 });
}

#[test]
fn one_bad_color_refuses_the_palette() {
    let mut colors = hex_colors(COLORS);
    colors.green = "green".to_string();
    assert_eq!(
        Palette::from_hex_colors(&colors).unwrap_err(),
        "expected #RRGGBB color, got \"green\""
    );
    assert_eq!(Palette::default_palette().accent, Rgb { r: 122, g: 162, b: 247 });
}
