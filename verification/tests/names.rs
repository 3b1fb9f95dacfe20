use audisuals::common::diff_durs;
use audisuals::common::song_format;
use audisuals::common::AudioFormat;
use audisuals::common::AudioType;
use audisuals::common::GArg;
use audisuals::keywords::check_audio_name;
use audisuals::keywords::check_garg_name;
use audisuals::numbers::str_to_int;

#[test]
fn garg_keywords_match_case_insensitively() {
    assert_eq!(check_garg_name(b"size"), Ok(GArg::Size));
    assert_eq!(check_garg_name(b"SIZE"), Ok(GArg::Size));
    assert_eq!(check_garg_name(b"r"), Ok(GArg::R));
    assert_eq!(check_garg_name(b"Red"), Ok(GArg::R));
    assert_eq!(check_garg_name(b"g"), Ok(GArg::G));
    assert_eq!(check_garg_name(b"green"), Ok(GArg::G));
    assert_eq!(check_garg_name(b"b"), Ok(GArg::B));
    assert_eq!(check_garg_name(b"BLUE"), Ok(GArg::B));
    assert_eq!(check_garg_name(b"scale"), Ok(GArg::Scale));
    assert_eq!(check_garg_name(b"count"), Ok(GArg::Count));
    assert_eq!(check_garg_name(b"x"), Ok(GArg::X));
    assert_eq!(check_garg_name(b"Y"), Ok(GArg::Y));
}

#[test]
fn unknown_garg_names_are_errors() {
    assert!(check_garg_name(b"").is_err());
    assert!(check_garg_name(b"width").is_err());
    assert!(check_garg_name(b"sizes").is_err());
    assert!(check_garg_name(b"siz").is_err());
    assert!(check_garg_name(b"rr").is_err());
}

#[test]
fn audio_names_match_case_insensitively() {
    assert_eq!(check_audio_name(b"impulse"), Ok(AudioType::Impulse));
    assert_eq!(check_audio_name(b"Impulse"), Ok(AudioType::Impulse));
    assert_eq!(check_audio_name(b"LEVEL"), Ok(AudioType::Level));
    assert!(check_audio_name(b"bass").is_err());
    assert!(check_audio_name(b"").is_err());
}

#[test]
fn song_formats_from_extension() {
    assert_eq!(song_format(b"wav"), Some(AudioFormat::Wav));
    assert_eq!(song_format(b"WAV"), Some(AudioFormat::Wav));
    assert_eq!(song_format(b"mp3"), Some(AudioFormat::Mp3));
    assert_eq!(song_format(b"Mp3"), Some(AudioFormat::Mp3));
    assert_eq!(song_format(b"ogg"), None);
    assert_eq!(song_format(b""), None);
}

#[test]
fn decimal_integers_parse_exactly() {
    assert_eq!(str_to_int(b"0"), Ok(0));
    assert_eq!(str_to_int(b"12"), Ok(12));
    assert_eq!(str_to_int(b"+12"), Ok(12));
    assert_eq!(str_to_int(b"-12"), Ok(-12));
    assert_eq!(str_to_int(b"007"), Ok(7));
    assert_eq!(str_to_int(b"2147483647"), Ok(i32::MAX));
    assert_eq!(str_to_int(b"-2147483648"), Ok(i32::MIN));
}

#[test]
fn bad_integers_are_errors() {
    assert!(str_to_int(b"").is_err());
    assert!(str_to_int(b"+").is_err());
    assert!(str_to_int(b"-").is_err());
    assert!(str_to_int(b"12a").is_err());
    assert!(str_to_int(b"1.5").is_err());
    assert!(str_to_int(b" 1").is_err());
    assert!(str_to_int(b"2147483648").is_err());
    assert!(str_to_int(b"-2147483649").is_err());
    assert!(str_to_int(b"99999999999999999999").is_err());
}

#[test]
fn error_messages_carry_the_identifier() {
    assert_eq!(
        check_garg_name(b"bogus").unwrap_err(),
        "Invalid graphic argument specified: bogus"
    );
    assert_eq!(
        check_audio_name(b"Bass9").unwrap_err(),
        "Invalid audio input specified: Bass9"
    );
    assert_eq!(str_to_int(b"12a").unwrap_err(), "Not an integer: 12a");
    assert_eq!(str_to_int(b"").unwrap_err(), "Not an integer: ");
    // Bytes outside the script alphabet render as a placeholder.
    assert_eq!(str_to_int(b"1.5").unwrap_err(), "Not an integer: 1?5");
}

#[test]
fn duration_difference_is_symmetric() {
    assert_eq!(diff_durs(10, 3), 7);
    assert_eq!(diff_durs(3, 10), 7);
    assert_eq!(diff_durs(5, 5), 0);
    assert_eq!(diff_durs(u64::MAX, 0), u64::MAX);
}
