use hifirs::release::{Artist, ArtistName, AudioInfo, Dates, Genre, Label, PhysicalSupport, Rights};
use hifirs::actions::Request;
use hifirs::text::{decimal_i64, decimal_u64, joined, same_text};
use hifirs::uri::{parse_number, resolve};

#[test]
fn numbers_in_decimal_notation() {
    for number in [0u64, 1, 9, 10, 11, 99, 100, 101, 12345, 4_294_967_295, u64::MAX] {
        assert_eq!(decimal_u64(number), number.to_string());
    }
    for number in [0i64, -1, 1, -9, -10, 10, 1_700_000_000, -1_700_000_000, i64::MAX, i64::MIN] {
        assert_eq!(decimal_i64(number), number.to_string());
    }
    assert_eq!(decimal_u64(1090), "1090");
    assert_eq!(decimal_i64(-1090), "-1090");
}

#[test]
fn texts_are_joined_and_compared() {
    assert_eq!(joined("ab", "cd"), "abcd");
    assert_eq!(joined("", ""), "");
    assert!(same_text("é", "é"));
    assert!(!same_text("a", "A"));
    assert!(!same_text("a", "ab"));
}

#[test]
fn release_records_start_out_empty() {
    assert_eq!(PhysicalSupport::default(), PhysicalSupport { media_number: 0, track_number: 0 });
    assert_eq!(Genre::default(), Genre { path: Vec::new(), name: String::new(), id: 0 });
    assert_eq!(Label::default(), Label { id: 0, name: String::new() });
    assert_eq!(
        Dates::default(),
        Dates { download: String::new(), original: String::new(), stream: String::new() }
    );
    assert!(!Rights::default().streamable);
    assert_eq!(Artist::default(), Artist { id: 0, name: ArtistName { display: String::new() } });
    let info = AudioInfo {
        maximum_bit_depth: 24,
        maximum_channel_count: 2.0f32.to_bits(),
        maximum_sampling_rate: 44.1f32.to_bits(),
    };
    assert_eq!(f32::from_bits(info.clone().maximum_sampling_rate), 44.1f32);
    assert_eq!(f32::from_bits(info.maximum_channel_count), 2.0f32);
}

#[test]
fn an_album_is_offered_with_its_year() {
    assert_eq!(
        hifirs::cli::album_label("Blue Train", "John Coltrane", "1957-09-15").as_deref(),
        Some("Blue Train - John Coltrane (1957)")
    );
    assert_eq!(hifirs::cli::album_label("a", "b", "1957").as_deref(), Some("a - b (1957)"));
    assert_eq!(hifirs::cli::album_label("a", "b", "195"), None);
    assert_eq!(hifirs::cli::album_label("a", "b", ""), None);
    assert_eq!(hifirs::cli::album_label("a", "b", "195é"), None);
}

#[test]
fn addresses_name_what_to_play() {
    assert!(matches!(
        resolve("https://open.example.com/album/0060253780968"),
        Some(Request::Album { ref album_id }) if album_id == "0060253780968"
    ));
    assert!(matches!(
        resolve("https://play.example.com/playlist/1234567890123"),
        Some(Request::Playlist { playlist_id: 1234567890123 })
    ));
    assert!(matches!(resolve("/track/5966783"), Some(Request::Track { track_id: 5966783 })));
    assert!(matches!(resolve("x/track/007"), Some(Request::Track { track_id: 7 })));
    assert!(matches!(resolve("é/album/ü"), Some(Request::Album { ref album_id }) if album_id == "ü"));
    assert!(resolve("https://open.example.com/album/").is_none());
    assert!(resolve("https://open.example.com/artist/42").is_none());
    assert!(resolve("track/5").is_none());
    assert!(resolve("/track/").is_none());
    assert!(resolve("/track/-5").is_none());
    assert!(resolve("/track/5a").is_none());
    assert!(resolve("/track/2147483648").is_none());
    assert!(matches!(resolve("/track/2147483647"), Some(Request::Track { track_id: 2147483647 })));
    assert!(matches!(
        resolve("/playlist/9223372036854775807"),
        Some(Request::Playlist { playlist_id: i64::MAX })
    ));
    assert!(resolve("/playlist/9223372036854775808").is_none());
    assert!(resolve("/playlist/99999999999999999999999999999999999999999").is_none());
    assert!(resolve("").is_none());
    assert!(resolve("//").is_none());
    assert_eq!(parse_number("0", 0), Some(0));
    assert_eq!(parse_number("18446744073709551615", u64::MAX), Some(u64::MAX));
    assert_eq!(parse_number("18446744073709551616", u64::MAX), None);
    assert_eq!(parse_number("", 10), None);
    assert_eq!(parse_number("11", 10), None);
    for number in [0u64, 9, 10, 1090, u64::MAX] {
        assert_eq!(parse_number(&hifirs::text::decimal_u64(number), u64::MAX), Some(number));
    }
}
