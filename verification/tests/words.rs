use mamacine::disk::space;
use mamacine::json::{flag_of, get, number_of, text_of, Json};
use mamacine::words::{
    decimal_of, find_text, hex_of, parse_whole, replace_char, signed_decimal_of, trim_text,
};

#[test]
fn numbers_are_written_and_read_back() {
    assert_eq!(decimal_of(0), "0");
    assert_eq!(decimal_of(18_446_744_073_709_551_615), "18446744073709551615");
    assert_eq!(signed_decimal_of(-42), "-42");
    assert_eq!(signed_decimal_of(i64::MIN), "-9223372036854775808");
    assert_eq!(parse_whole("563"), Some(563));
    assert_eq!(parse_whole("+7"), Some(7));
    assert_eq!(parse_whole("18446744073709551616"), None);
    assert_eq!(parse_whole(""), None);
    assert_eq!(parse_whole("12a"), None);
}

#[test]
fn text_is_trimmed_searched_and_rewritten_as_std_does() {
    assert_eq!(trim_text("\u{a0} Das Boot \n"), "Das Boot");
    assert_eq!(find_text("Mamá Cine · 5 MB/s", "·"), Some(10));
    assert_eq!(find_text("abc", "d"), None);
    assert_eq!(replace_char("es_ES", '_', '-'), "es-ES");
    assert_eq!(hex_of(&[0, 15, 16, 255]), "000f10ff");
}

#[test]
fn a_disk_reports_its_room_in_bytes() {
    let measured = space(10, 40, 4096);
    assert_eq!(measured.free, 40_960);
    assert_eq!(measured.total, 163_840);
    assert!(measured.total >= measured.free);
}

#[test]
fn the_window_fields_are_read_by_name() {
    let sent = Json::Record(vec![
        ("news_host".to_string(), Json::Text(" news.test ".to_string())),
        ("news_port".to_string(), Json::Whole(563)),
        ("autostart".to_string(), Json::Flag(true)),
    ]);
    assert_eq!(text_of(&sent, "news_host"), Some("news.test".to_string()));
    assert_eq!(number_of(&sent, "news_port"), Some(563));
    assert_eq!(flag_of(&sent, "autostart"), Some(true));
    assert!(get(&sent, "missing").is_none());
    assert_eq!(text_of(&Json::Null, "news_host"), None);
}
