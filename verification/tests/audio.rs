use gen_mandarin_anki::audio::{build_file_name, fresh_file_name, AudioFile};

#[test]
fn note_field_refers_to_the_file_by_name() {
    let audio = AudioFile { directory: "/tmp/recordings".to_string(), file_name: "ab--------12345.mp3".to_string() };
    assert_eq!(audio.build_note_field(), "[sound:ab--------12345.mp3]");
    let nameless = AudioFile { directory: String::new(), file_name: String::new() };
    assert_eq!(nameless.build_note_field(), "[sound:]");
}

#[test]
fn file_name_is_stem_suffix_and_extension() {
    assert_eq!(build_file_name("ab", "12345"), "ab--------12345.mp3");
    assert_eq!(build_file_name("", "x"), "----------x.mp3");
    assert_eq!(build_file_name("0123456789", "abcde"), "0123456789abcde.mp3");
    assert_eq!(build_file_name("0123456789ABCDEF", "abcde"), "0123456789abcde.mp3");
    assert_eq!(build_file_name("%E4%BD%A0%E5%A5%BD", "Zz9Zz"), "%E4%BD%A0%Zz9Zz.mp3");
    assert_eq!(build_file_name("你好", ""), "你好--------.mp3");
    for (encoded, suffix) in [("a%20b", "q1w2e"), ("", ""), ("0123456789012", "s")] {
        assert_eq!(
            build_file_name(encoded, suffix),
            format!("{:-<10.10}{}.mp3", encoded, suffix)
        );
    }
}

#[test]
fn fresh_name_has_the_encoded_text_and_five_random_characters() {
    for (text, stem) in [("你好", "%E4%BD%A0%"), ("a b", "a%20b-----"), ("", "----------"), ("plain", "plain-----"), ("a/b", "a%2Fb-----")] {
        let name = fresh_file_name(text);
        assert_eq!(name.chars().count(), 19);
        assert!(name.starts_with(stem), "{:?}", name);
        assert!(name.ends_with(".mp3"));
        let suffix: String = name.chars().skip(10).take(5).collect();
        assert!(suffix.chars().all(|c| c.is_ascii_alphanumeric()), "{:?}", suffix);
        let encoded = url_escape::encode_component(text).into_owned();
        assert_eq!(name, build_file_name(&encoded, &suffix));
        assert!(!name.contains('/'));
    }
}

#[test]
fn fresh_names_of_one_text_differ() {
    let mut names: Vec<String> = Vec::new();
    let mut made = 0;
    while made < 20 {
        names.push(fresh_file_name("你好"));
        made += 1;
    }
    names.sort();
    names.dedup();
    assert!(names.len() > 1);
}
