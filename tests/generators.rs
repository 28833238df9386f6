use strgen::grammar::render_adapted;
use strgen::rng::next_seed;
use strgen::text::{parse_u32, parse_words};
use strgen::{
    generate, pick_index, stringer, Config, ConfigError, CoupledWords, DrawError, GermanNounList,
    Generator, Languages, LettterSequence, ListType, Modes, NounClass, RNGWheel, RandomWord,
    SetupError, DEFAULT_NOUN_CLASS, FALLBACK_LANGUAGE, FALLBACK_MODE, RNG,
};

fn args(list: &[&str]) -> Vec<String> {
    list.iter().map(|s| s.to_string()).collect()
}

fn word_list(text: &str) -> RandomWord {
    let mut w = RandomWord::new(ListType::Nouns, Languages::English);
    w.fill(text);
    w
}

#[test]
fn letters_have_the_length_and_come_from_the_alphabet() {
    let mut g = LettterSequence::new("xyz", 10);
    for seed in 0..200u64 {
        let s = g.get(seed).unwrap();
        assert_eq!(s.chars().count(), 10);
        assert!(s.chars().all(|c| "xyz".contains(c)));
    }
}

#[test]
fn letters_of_length_zero_are_empty() {
    let mut g = LettterSequence::new("ab", 0);
    assert_eq!(g.get(7).unwrap(), "");
}

#[test]
fn letters_keep_multibyte_characters_whole() {
    let mut g = LettterSequence::new("äöüß", 25);
    let s = g.get(3).unwrap();
    assert_eq!(s.chars().count(), 25);
    assert!(s.chars().all(|c| "äöüß".contains(c)));
}

#[test]
fn empty_alphabet_fails_to_draw() {
    let mut g = LettterSequence::new("", 4);
    assert_eq!(g.get(1), Err(DrawError::EmptyAlphabet));
}

#[test]
fn empty_alphabet_with_length_zero_gives_an_empty_string() {
    let mut g = LettterSequence::new("", 0);
    assert_eq!(g.get(5), Ok(String::new()));
}

#[test]
fn set_alphabet_replaces_the_letters() {
    let mut g = LettterSequence::new("abc", 30);
    g.set_alphabet("q");
    assert_eq!(g.get(11).unwrap(), "q".repeat(30));
}

#[test]
fn letters_depend_on_the_seed_alone() {
    let mut g = LettterSequence::new("abcdefghijklmnopqrstuvwxyz", 12);
    let a = g.get(42).unwrap();
    let b = g.get(42).unwrap();
    let c = g.get(43).unwrap();
    assert_eq!(a, b);
    assert_ne!(a, c);
}

#[test]
fn draws_stay_in_the_list_and_cover_it() {
    let w = word_list("red,green,blue");
    let mut seen = [false; 3];
    for seed in 0..1000u64 {
        let d = w.get(seed).unwrap();
        let i = ["red", "green", "blue"].iter().position(|x| *x == d).unwrap();
        seen[i] = true;
    }
    assert!(seen.iter().all(|s| *s));
}

#[test]
fn fill_splits_trims_and_drops_empty_tokens() {
    assert_eq!(parse_words("foo, bar ,, baz"), vec!["foo", "bar", "baz"]);
    let w = word_list("foo, bar ,, baz");
    assert_eq!(w.get_list_len(), 3);
}

#[test]
fn fill_reads_every_line_in_order() {
    assert_eq!(
        parse_words("a,b\r\n c \n\n,d,\t"),
        vec!["a", "b", "c", "d"]
    );
    let mut w = word_list("one");
    w.fill("two, three");
    assert_eq!(w.get_list_len(), 3);
}

#[test]
fn whitespace_only_tokens_are_dropped() {
    assert_eq!(parse_words(" , \u{a0} ,x"), vec!["x"]);
}

#[test]
fn add_word_appends() {
    let mut w = RandomWord::new(ListType::Names, Languages::German);
    w.add_word("Anna".to_string());
    assert_eq!(w.get_list_len(), 1);
    assert_eq!(w.get(5).unwrap(), "Anna");
}

#[test]
fn missing_list_gives_an_empty_list_and_failing_draws() {
    let w = word_list("");
    assert_eq!(w.get_list_len(), 0);
    assert_eq!(w.get(0), Err(DrawError::EmptyList));
}

#[test]
fn default_file_names() {
    let w = RandomWord::new(ListType::Nouns, Languages::German);
    assert_eq!(w.get_file_name(), "./lists/nouns.de.list");
    let w = RandomWord::new(ListType::Adjectives, Languages::English);
    assert_eq!(w.get_file_name(), "./lists/adjectives.en.list");
    let w = RandomWord::new(ListType::Names, Languages::English);
    assert_eq!(w.get_file_name(), "./lists/names.en.list");
    assert_eq!(w.list_path(""), "./lists/names.en.list");
    assert_eq!(w.list_path("my.list"), "my.list");
    assert_eq!(w.get_language(), Languages::English);
    assert_eq!(w.get_list_type(), ListType::Names);
}

#[test]
fn is_noun_only_for_nouns() {
    assert!(ListType::Nouns.is_noun());
    assert!(!ListType::Adjectives.is_noun());
    assert!(!ListType::Names.is_noun());
}

fn coupled(second: ListType, lang: Languages, adj: &str, word: &str) -> String {
    let mut c = CoupledWords::new(second, lang);
    c.fill_lists(adj, word);
    c.get(9).unwrap()
}

#[test]
fn non_german_coupling_joins_with_underscore() {
    assert_eq!(coupled(ListType::Nouns, Languages::English, "quick", "fox"), "quick_fox");
    assert_eq!(coupled(ListType::Names, Languages::English, "brave", "Anna"), "brave_Anna");
}

#[test]
fn german_names_are_not_adapted() {
    assert_eq!(coupled(ListType::Names, Languages::German, "schnell", "Anna"), "schnell_Anna");
}

#[test]
fn german_nouns_are_adapted() {
    let cases = [
        ("schnell", "Hund", "schnellerHund"),
        ("klein", "Katze", "kleineKatze"),
        ("alt", "Haus", "altesHaus"),
        ("leise", "Vogel", "leiserVogel"),
        ("müde", "Lamm", "müdesLamm"),
        ("rund", "Zug", "rundeZug"),
    ];
    for (adj, noun, want) in cases {
        let got = coupled(ListType::Nouns, Languages::German, adj, noun);
        assert_eq!(got, want);
        assert!(!got.contains('_'));
    }
}

#[test]
fn coupled_draw_fails_on_an_empty_list() {
    let mut c = CoupledWords::new(ListType::Nouns, Languages::English);
    c.fill_lists("big", "");
    assert_eq!(c.get(1), Err(DrawError::EmptyList));
    let mut c = CoupledWords::new(ListType::Nouns, Languages::English);
    c.fill_lists("", "cat");
    assert_eq!(c.get(1), Err(DrawError::EmptyList));
}

#[test]
fn noun_table_lookup_and_default() {
    let mut t = GermanNounList::new();
    assert_eq!(t.class_of(&"Hund".to_string()), DEFAULT_NOUN_CLASS);
    t.fill();
    assert_eq!(t.class_of(&"Hund".to_string()), NounClass::Masculine);
    assert_eq!(t.class_of(&"Haus".to_string()), NounClass::Neuter);
    assert_eq!(t.class_of(&"Katze".to_string()), NounClass::Feminine);
    assert_eq!(t.class_of(&"hund".to_string()), NounClass::Feminine);
    t.add_entry("Zug", NounClass::Masculine);
    assert_eq!(t.get_adapted("Zug".to_string(), "lang".to_string()), "langerZug");
    assert_eq!(DEFAULT_NOUN_CLASS, NounClass::Feminine);
}

#[test]
fn render_adapted_endings() {
    let a = "grün".to_string();
    let n = "Gras".to_string();
    assert_eq!(render_adapted(&a, &n, NounClass::Masculine), "grünerGras");
    assert_eq!(render_adapted(&a, &n, NounClass::Feminine), "grüneGras");
    assert_eq!(render_adapted(&a, &n, NounClass::Neuter), "grünesGras");
    assert_eq!(render_adapted(&"".to_string(), &n, NounClass::Neuter), "esGras");
}

#[test]
fn wheel_hands_out_exactly_its_length() {
    let mut w = RNGWheel::new(3, 5);
    assert!(w.next_value().is_some());
    assert!(w.next_value().is_some());
    assert!(w.next_value().is_some());
    assert_eq!(w.next_value(), None);
    assert_eq!(w.next_value(), None);
}

#[test]
fn scalar_rng_first_value() {
    let mut r = RNG::new();
    r.seed(0);
    assert_eq!(r.get(), 0xe220_a839_7b1d_cdaf);
    let mut q = RNG::new();
    q.seed(1);
    assert_ne!(q.get(), 0xe220_a839_7b1d_cdaf);
    assert_eq!(next_seed(0), 0x9e37_79b9_7f4a_7c15);
}

#[test]
fn reduction_stays_in_range() {
    for len in 1..40usize {
        for v in [0u64, 1, 7, 1 << 40, u64::MAX, u64::MAX - 1] {
            let i = pick_index(v, len);
            assert!(i < len);
            assert_eq!(i as u64, v % len as u64);
        }
    }
}

#[test]
fn driver_yields_amount_lines() {
    let conf = Config::new(&args(&["prog", "5", "8", "letters", "en"])).unwrap();
    let mut g = stringer(&conf);
    let sources = g.setup_sources(&conf).unwrap();
    assert!(sources.is_empty());
    g.setup(&conf, &Vec::new());
    let lines = generate(&mut g, conf.amount, 77).unwrap();
    assert_eq!(lines.len(), 5);
    for l in &lines {
        assert_eq!(l.chars().count(), 8);
        assert!(l.chars().all(|c| c.is_ascii_lowercase()));
    }
}

#[test]
fn driver_with_zero_amount_yields_nothing() {
    let conf = Config::new(&args(&["prog", "0"])).unwrap();
    let mut g = stringer(&conf);
    g.setup(&conf, &Vec::new());
    assert_eq!(generate(&mut g, 0, 1).unwrap().len(), 0);
}

#[test]
fn driver_fails_on_an_empty_word_list() {
    let conf = Config::new(&args(&["prog", "3", "1", "word", "de"])).unwrap();
    let mut g = stringer(&conf);
    let sources = g.setup_sources(&conf).unwrap();
    assert_eq!(sources, vec!["./lists/nouns.de.list".to_string()]);
    g.setup(&conf, &vec![String::new()]);
    assert_eq!(generate(&mut g, 3, 1), Err(DrawError::EmptyList));
}

#[test]
fn driver_word_file_mode() {
    let conf = Config::new(&args(&["prog", "4", "1", "word-file", "w.list"])).unwrap();
    let mut g = stringer(&conf);
    assert_eq!(g.setup_sources(&conf).unwrap(), vec!["w.list".to_string()]);
    g.setup(&conf, &vec!["a, a".to_string()]);
    assert_eq!(generate(&mut g, 4, 2).unwrap(), vec!["a"; 4]);
}

#[test]
fn driver_coupled_files_mode() {
    let conf = Config::new(&args(&["prog", "2", "1", "coupled-files", "adj.list:names.list"])).unwrap();
    let mut g = stringer(&conf);
    assert_eq!(
        g.setup_sources(&conf).unwrap(),
        vec!["adj.list".to_string(), "names.list".to_string()]
    );
    g.setup(&conf, &vec!["kind".to_string(), "Ole".to_string()]);
    assert_eq!(generate(&mut g, 2, 2).unwrap(), vec!["kind_Ole"; 2]);
}

#[test]
fn driver_coupled_files_needs_two_paths() {
    let conf = Config::new(&args(&["prog", "2", "1", "coupled-files", "adj.list"])).unwrap();
    let g = stringer(&conf);
    assert_eq!(g.setup_sources(&conf), Err(SetupError::MalformedListFiles));
}

#[test]
fn driver_coupled_nouns_german() {
    let conf = Config::new(&args(&["prog", "1", "1", "coupled-nouns", "de"])).unwrap();
    let mut g = stringer(&conf);
    assert_eq!(
        g.setup_sources(&conf).unwrap(),
        vec!["./lists/adjectives.de.list".to_string(), "./lists/nouns.de.list".to_string()]
    );
    g.setup(&conf, &vec!["alt".to_string(), "Haus".to_string()]);
    assert_eq!(generate(&mut g, 1, 0).unwrap(), vec!["altesHaus"]);
}

#[test]
fn driver_letter_modes() {
    let conf = Config::new(&args(&["prog", "3", "6", "alphabet", "01"])).unwrap();
    let mut g = stringer(&conf);
    g.setup(&conf, &Vec::new());
    for l in generate(&mut g, 3, 4).unwrap() {
        assert!(l.chars().all(|c| c == '0' || c == '1'));
        assert_eq!(l.len(), 6);
    }
    let conf = Config::new(&args(&["prog", "3", "6", "alphabet-file", "abc.txt"])).unwrap();
    let mut g = stringer(&conf);
    assert_eq!(g.setup_sources(&conf).unwrap(), vec!["abc.txt".to_string()]);
    g.setup(&conf, &vec!["z".to_string()]);
    assert_eq!(generate(&mut g, 2, 4).unwrap(), vec!["zzzzzz"; 2]);
    assert!(matches!(g, Generator::Letters(_)));
}

#[test]
fn config_defaults() {
    let c = Config::new(&args(&["prog"])).unwrap();
    assert_eq!(c.amount, 16);
    assert_eq!(c.length, 12);
    assert_eq!(c.mode, Modes::RandomLetters);
    assert_eq!(c.next, "");
    assert!(!c.write_to_file);
}

#[test]
fn config_reads_all_arguments() {
    let c = Config::new(&args(&["prog", "+3", "40", "coupled-names", "de", "1"])).unwrap();
    assert_eq!(c.amount, 3);
    assert_eq!(c.length, 40);
    assert_eq!(c.mode, Modes::CoupledWordsNames);
    assert_eq!(c.next, "de");
    assert!(c.write_to_file);
    let c = Config::new(&args(&["prog", "1", "2", "nonsense", "x", "yes"])).unwrap();
    assert_eq!(c.mode, FALLBACK_MODE);
    assert!(!c.write_to_file);
}

#[test]
fn config_rejects_bad_numbers() {
    assert_eq!(Config::new(&args(&["prog", "x"])).err(), Some(ConfigError::InvalidAmount));
    assert_eq!(Config::new(&args(&["prog", "-1", "x"])).err(), Some(ConfigError::InvalidAmount));
    assert_eq!(Config::new(&args(&["prog", "2", ""])).err(), Some(ConfigError::InvalidLength));
    assert_eq!(
        Config::new(&args(&["prog", "2", "4294967296"])).err(),
        Some(ConfigError::InvalidLength)
    );
}

#[test]
fn parse_u32_matches_std() {
    for s in ["0", "42", "+7", "007", "4294967295", "4294967296", "", "+", "1a", " 1", "-0", "99999999999"] {
        assert_eq!(parse_u32(s), s.parse::<u32>().ok(), "{}", s);
    }
}

#[test]
fn languages_by_code() {
    assert_eq!(Languages::from_id("de"), Languages::German);
    assert_eq!(Languages::from_id("en"), Languages::English);
    assert_eq!(Languages::from_id("fr"), FALLBACK_LANGUAGE);
    assert_eq!(Languages::from_id("DE"), FALLBACK_LANGUAGE);
    assert!(Languages::German.is_german());
    assert!(!Languages::English.is_german());
    assert_eq!(Languages::German.abbr(), "de");
    assert_eq!(Languages::English.get_alphabet(), "abcdefghijklmnopqrstuvwxyz");
    assert_eq!(Languages::German.get_alphabet().chars().count(), 30);
}

#[test]
fn modes_by_identifier() {
    assert_eq!(Modes::from_id("letters"), Modes::RandomLetters);
    assert_eq!(Modes::from_id("alphabet"), Modes::RandomLettersFromCustomAlphabet);
    assert_eq!(Modes::from_id("alphabet-file"), Modes::RandomLettersFromAlphabetFile);
    assert_eq!(Modes::from_id("word"), Modes::RandomWord);
    assert_eq!(Modes::from_id("word-file"), Modes::RandomWordFromListFile);
    assert_eq!(Modes::from_id("coupled-nouns"), Modes::CoupledWordsNouns);
    assert_eq!(Modes::from_id("coupled-names"), Modes::CoupledWordsNames);
    assert_eq!(Modes::from_id("coupled-files"), Modes::CoupledWordsListFiles);
    assert_eq!(Modes::from_id(""), FALLBACK_MODE);
}
