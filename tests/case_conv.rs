use case_conv::{
    ascii_prefix_len, is_ascii, sigma_form, to_lowercase, to_lowercase_upfront, to_uppercase,
    to_uppercase_upfront,
};

fn matches_std_lowercase(data: &str) {
    let lower = to_lowercase(data);
    assert_eq!(lower, data.to_lowercase());
}

fn matches_std_uppercase(data: &str) {
    let upper = to_uppercase(data);
    assert_eq!(upper, data.to_uppercase());
}

#[test]
fn lowercase() {
    assert_eq!(to_lowercase(""), "");
    assert_eq!(to_lowercase("AÉǅaé "), "aéǆaé ");

    assert_eq!(to_lowercase("ΑΣ"), "ας");
    assert_eq!(to_lowercase("Α'Σ"), "α'ς");
    assert_eq!(to_lowercase("Α''Σ"), "α''ς");

    assert_eq!(to_lowercase("ΑΣ Α"), "ας α");
    assert_eq!(to_lowercase("Α'Σ Α"), "α'ς α");
    assert_eq!(to_lowercase("Α''Σ Α"), "α''ς α");

    assert_eq!(to_lowercase("ΑΣ' Α"), "ας' α");
    assert_eq!(to_lowercase("ΑΣ'' Α"), "ας'' α");

    assert_eq!(to_lowercase("Α'Σ' Α"), "α'ς' α");
    assert_eq!(to_lowercase("Α''Σ'' Α"), "α''ς'' α");

    assert_eq!(to_lowercase("Α Σ"), "α σ");
    assert_eq!(to_lowercase("Α 'Σ"), "α 'σ");
    assert_eq!(to_lowercase("Α ''Σ"), "α ''σ");

    assert_eq!(to_lowercase("Σ"), "σ");
    assert_eq!(to_lowercase("'Σ"), "'σ");
    assert_eq!(to_lowercase("''Σ"), "''σ");

    assert_eq!(to_lowercase("ΑΣΑ"), "ασα");
    assert_eq!(to_lowercase("ΑΣ'Α"), "ασ'α");
    assert_eq!(to_lowercase("ΑΣ''Α"), "ασ''α");
}

#[test]
fn long() {
    let mut upper = str::repeat("A", 128);
    let mut lower = str::repeat("a", 128);

    assert_eq!(to_lowercase(&upper), lower);
    assert_eq!(to_uppercase(&lower), upper);

    upper.push('Σ');
    lower.push('σ');

    // The letters before the sigma are cased and nothing follows it, so
    // lowercasing gives the word-final form.
    let mut lower_final = str::repeat("a", 128);
    lower_final.push('ς');
    assert_eq!(to_lowercase(&upper), lower_final);
    assert_eq!(to_uppercase(&lower), upper);
}

#[test]
fn case_conv_long() {
    let upper = str::repeat("A", 512);
    let lower = str::repeat("a", 512);

    assert_eq!(to_lowercase(&upper), lower);
    assert_eq!(to_uppercase(&lower), upper);
}

#[test]
fn case_conv_long_unicode() {
    let upper = str::repeat("É", 512);
    let lower = str::repeat("é", 512);

    assert_eq!(to_lowercase(&upper), lower);
    assert_eq!(to_uppercase(&lower), upper);
}

#[test]
fn uppercase() {
    assert_eq!(to_uppercase(""), "");
    assert_eq!(to_uppercase("aéǅßﬁᾀ"), "AÉǄSSFIἈΙ");
}

#[test]
fn fuzz1() {
    let input = "\0\0\n\0\0ן\0\0\0\0\0\0\0\0\0\0\0\0\0\0\0\0\0\0\0\0\0\0\0\0\0\0\0\0\0\0\0\0\0\0\0\0\0\0\0\0\0\0\0\0\0\0\0\0\0\0\0\0\0\0\0\0\0\0\0\0\0\0\0\0\0\0\0\04\0\0\0\0\0\0\0\0\0\0\0\0\0\0\0\0\0\0\0\0\0\0\0\0\0\0ןv\u{5ff}\0ןן\u{7f}\0\0\0\0\0ןן\0ח\0\0ן";
    matches_std_lowercase(input)
}

#[test]
fn fuzz2() {
    let input = ")))))\t\u{c}\0)))))))))))))))))))))))))!)))))))))))))))))))))))))))))))))))))\0y)),))\0\0\0FF=\0ӟFFF!F\u{7f}\u{7f}\0)";
    matches_std_lowercase(input)
}

#[test]
fn ascii_text_flips_letters_only() {
    let s = "Hello, World! 0123 [`@] {~} _^";
    assert_eq!(to_lowercase(s), "hello, world! 0123 [`@] {~} _^");
    assert_eq!(to_uppercase(s), "HELLO, WORLD! 0123 [`@] {~} _^");
    let all: String = (0u8..0x80).map(|b| b as char).collect();
    let lower: String = all.chars().map(|c| c.to_ascii_lowercase()).collect();
    let upper: String = all.chars().map(|c| c.to_ascii_uppercase()).collect();
    assert_eq!(to_lowercase(&all), lower);
    assert_eq!(to_uppercase(&all), upper);
}

#[test]
fn converting_twice_changes_nothing() {
    for s in ["MiXeD cAsE 42", "AÉǅaé ", "aéǅßﬁᾀ", "ΑΣ Α'Σ", "İstanbul", ""] {
        let lower = to_lowercase(s);
        assert_eq!(to_lowercase(&lower), lower);
        let upper = to_uppercase(s);
        assert_eq!(to_uppercase(&upper), upper);
    }
}

#[test]
fn results_decode_as_text() {
    for s in ["AÉǅaé ", "aéǅßﬁᾀ", "ΑΣ", "\u{10400}x\u{1e900}", "ŉ"] {
        let lower = to_lowercase(s).into_bytes();
        assert!(String::from_utf8(lower).is_ok());
        let upper = to_uppercase(s).into_bytes();
        assert!(String::from_utf8(upper).is_ok());
    }
}

#[test]
fn is_ascii_per_byte() {
    assert!(is_ascii(b""));
    assert!(is_ascii(b"plain ascii text"));
    assert!(!is_ascii("é".as_bytes()));
    assert!(is_ascii(&[0x7f]));
    assert!(!is_ascii(&[0x80]));
    for len in [1usize, 15, 16, 17, 31, 32, 33, 63, 64, 65, 100] {
        let clean = vec![b'a'; len];
        assert!(is_ascii(&clean));
        for pos in 0..len {
            let mut dirty = clean.clone();
            dirty[pos] = 0x80 | (pos as u8);
            assert!(!is_ascii(&dirty), "len {len}, non-ASCII byte at {pos}");
        }
    }
}

#[test]
fn ascii_prefix_len_is_exact() {
    assert_eq!(ascii_prefix_len(b""), 0);
    assert_eq!(ascii_prefix_len(b"abc"), 3);
    assert_eq!(ascii_prefix_len("é".as_bytes()), 0);
    for len in [1usize, 15, 16, 17, 33, 50] {
        let clean = vec![b'Z'; len];
        assert_eq!(ascii_prefix_len(&clean), len);
        for pos in 0..len {
            let mut dirty = clean.clone();
            dirty[pos] = 0xC3;
            assert_eq!(ascii_prefix_len(&dirty), pos);
        }
    }
}

#[test]
fn final_sigma_cases() {
    assert_eq!(to_lowercase("ΑΣ"), "ας");
    assert_eq!(to_lowercase("Α'Σ"), "α'ς");
    assert_eq!(to_lowercase("ΑΣ Α"), "ας α");
    assert_eq!(to_lowercase("Α Σ"), "α σ");
    assert_eq!(to_lowercase("Σ"), "σ");
    // The cased value before the sigma lies in the leading ASCII run.
    assert_eq!(to_lowercase("AΣ"), "aς");
    assert_eq!(to_lowercase("A.Σ b"), "a.ς b");
    assert_eq!(to_lowercase("A Σ"), "a σ");
    assert_eq!(to_lowercase("AΣB"), "aσb");
    assert_eq!(to_lowercase("ΑΣΣ"), "ασς");
    assert_eq!(to_lowercase("ΟΔΟΣ ΟΔΟΣ"), "οδος οδος");
}

#[test]
fn expansion_cases() {
    assert_eq!(to_uppercase("aéǅßﬁᾀ"), "AÉǄSSFIἈΙ");
    assert_eq!(to_uppercase("ß"), "SS");
    assert_eq!(to_uppercase("ﬃ"), "FFI");
    assert_eq!(to_lowercase("İ"), "i\u{307}");
    assert_eq!(to_uppercase("é"), "É");
    assert_eq!(to_lowercase("É"), "é");
}

#[test]
fn mixed_and_boundary_cases() {
    assert_eq!(to_lowercase("AÉǅaé "), "aéǆaé ");
    assert_eq!(to_lowercase(""), "");
    assert_eq!(to_uppercase(""), "");
    for n in [0usize, 1, 15, 16, 17, 31, 32, 33, 127, 128, 129] {
        let mut upper = str::repeat("A", n);
        let mut lower = str::repeat("a", n);
        upper.push('Σ');
        lower.push(if n == 0 { 'σ' } else { 'ς' });
        upper.push_str(" BÉ");
        lower.push_str(" bé");
        assert_eq!(to_lowercase(&upper), lower);
        matches_std_lowercase(&upper);
        matches_std_uppercase(&lower);
    }
}

#[test]
fn long_non_ascii_round_trip() {
    let upper = str::repeat("É", 512);
    let lower = str::repeat("é", 512);
    assert_eq!(to_uppercase(&to_lowercase(&upper)), upper);
    assert_eq!(to_lowercase(&to_uppercase(&lower)), lower);
    let mixed = str::repeat("aÉ", 300);
    matches_std_lowercase(&mixed);
    matches_std_uppercase(&mixed);
}

#[test]
fn agrees_with_std_on_samples() {
    for s in [
        "Straße",
        "ΌΣΟΣ ΣΟΦΌΣ",
        "ǅungla ǈubljana",
        "\u{10400}\u{10428}",
        "ﬁnal ﬂow",
        "ᾈᾉᾊ ῼ",
        "Ⅻ ⓐⒶ",
        "ΑΣ\u{301}",
        "Α\u{301}Σ",
        "ΑΣ:Α",
    ] {
        matches_std_lowercase(s);
        matches_std_uppercase(s);
    }
}

#[test]
fn upfront_dispatch_gives_the_same_results() {
    let long_ascii = str::repeat("Mixed Case ", 40);
    let mut late_unicode = long_ascii.clone();
    late_unicode.push_str("ΑΣ");
    for s in [
        "",
        "AÉǅaé ",
        "aéǅßﬁᾀ",
        "ΑΣ Α",
        "AΣ",
        "A Σ",
        long_ascii.as_str(),
        late_unicode.as_str(),
    ] {
        assert_eq!(to_lowercase_upfront(s), to_lowercase(s));
        assert_eq!(to_uppercase_upfront(s), to_uppercase(s));
        matches_std_lowercase(s);
    }
    assert_eq!(to_lowercase_upfront("AΣ"), "aς");
    assert_eq!(to_uppercase_upfront("straße"), "STRASSE");
    assert_eq!(to_lowercase_upfront("HELLO"), "hello");
}

#[test]
fn sigma_form_decides_word_end() {
    assert_eq!(sigma_form(true, false), 'ς');
    assert_eq!(sigma_form(true, true), 'σ');
    assert_eq!(sigma_form(false, false), 'σ');
    assert_eq!(sigma_form(false, true), 'σ');
}
