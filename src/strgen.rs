use vstd::prelude::*;
use vstd::string::*;

use crate::grammar::{
    adapted, class_in, known_nouns, lemma_adapted_has_no_underscore, GermanNounList, NounClass,
};
use crate::languages::{language_of, Languages};
use crate::modes::{mode_of, Modes};
use crate::rng::{lemma_wheel_len, advance, pick_index, reduce, scalar_value, wheel_values, RNGWheel, RNG};
use crate::text::{
    chars_of, list_words, parse_u32, parse_u32_spec, parse_words, pieces, push_char, same_text,
    split_pieces, string_of, views,
};

verus! {

/// What a word list holds, which decides its default file and whether German
/// adaptation applies.
#[derive(Clone, Copy, Debug, PartialEq, Eq, Structural)]
pub enum ListType {
    Nouns,
    Adjectives,
    Names,
}

impl ListType {
    pub fn is_noun(&self) -> (r: bool)
        ensures
            r == (*self is Nouns),
    {
        matches!(*self, ListType::Nouns)
    }
}

/// Why a string could not be drawn.
#[derive(Clone, Copy, Debug, PartialEq, Eq, Structural)]
pub enum DrawError {
    /// The alphabet of a letter generator has no letter.
    EmptyAlphabet,
    /// A word list has no word.
    EmptyList,
}

/// The letters that the values `vals` pick from `alphabet`.
pub open spec fn letters(alphabet: Seq<char>, vals: Seq<u64>) -> Seq<char>
    recommends
        alphabet.len() > 0,
{
    Seq::new(vals.len(), |i: int| alphabet[reduce(vals[i], alphabet.len()) as int])
}

/// A generator of fixed-length strings over an alphabet.
pub struct LettterSequence {
    alphabet: Vec<char>,
    length: usize,
}

impl LettterSequence {
    pub closed spec fn alphabet_spec(&self) -> Seq<char> {
        self.alphabet@
    }

    pub closed spec fn length_spec(&self) -> nat {
        self.length as nat
    }

    /// What `get` gives with `seed`: nothing is drawn for length 0, so only
    /// a draw from an empty alphabet fails.
    pub open spec fn output(&self, seed: u64) -> Result<Seq<char>, DrawError> {
        if self.length_spec() > 0 && self.alphabet_spec().len() == 0 {
            Err(DrawError::EmptyAlphabet)
        } else {
            Ok(letters(self.alphabet_spec(), wheel_values(seed, self.length_spec())))
        }
    }

    pub fn new(s: &str, length: usize) -> (r: LettterSequence)
        ensures
            r.alphabet_spec() == s@,
            r.length_spec() == length,
    {
        let alphabet = chars_of(s);
        LettterSequence { alphabet, length }
    }

    pub fn set_alphabet(&mut self, s: &str)
        ensures
            final(self).alphabet_spec() == s@,
            final(self).length_spec() == old(self).length_spec(),
    {
        self.alphabet = chars_of(s);
    }

    /// Draws `length` values from a wheel seeded with `seed` and writes the
    /// letter that each one picks.
    pub fn get(&mut self, seed: u64) -> (r: Result<String, DrawError>)
        ensures
            final(self).alphabet_spec() == old(self).alphabet_spec(),
            final(self).length_spec() == old(self).length_spec(),
            r matches Ok(s) ==> old(self).output(seed) == Ok::<Seq<char>, DrawError>(s@),
            r matches Err(e) ==> old(self).output(seed) == Err::<Seq<char>, DrawError>(e),
    {
        let len = self.alphabet.len();
        if self.length == 0 {
            proof {
                lemma_wheel_len(seed, 0);
            }
            assert(letters(self.alphabet@, wheel_values(seed, 0)) =~= Seq::<char>::empty());
            return Ok(String::new());
        }
        if len == 0 {
            return Err(DrawError::EmptyAlphabet);
        }
        let mut wheel = RNGWheel::new(self.length, seed);
        let ghost vals = wheel_values(seed, self.length as nat);
        proof {
            lemma_wheel_len(seed, self.length as nat);
        }
        let mut out = String::new();
        let ghost mut k: int = 0;
        loop
            invariant
                len == self.alphabet@.len() > 0,
                0 <= k <= vals.len(),
                vals.len() == self.length,
                wheel.pending() == vals.subrange(k, vals.len() as int),
                out@ == letters(self.alphabet@, vals.subrange(0, k)),
            ensures
                k == vals.len(),
                out@ == letters(self.alphabet@, vals.subrange(0, k)),
            decreases vals.len() - k,
        {
            match wheel.next_value() {
                Some(num) => {
                    let index = pick_index(num, len);
                    push_char(&mut out, self.alphabet[index]);
                    proof {
                        assert(vals.subrange(k, vals.len() as int).drop_first() =~= vals.subrange(
                            k + 1,
                            vals.len() as int,
                        ));
                        k = k + 1;
                    }
                    assert(out@ =~= letters(self.alphabet@, vals.subrange(0, k)));
                },
                None => {
                    assert(k == vals.len());
                    break ;
                },
            }
        }
        assert(vals.subrange(0, vals.len() as int) =~= vals);
        Ok(out)
    }
}

/// Whatever the seed and the length, a letter sequence has that length and
/// holds only letters of its alphabet.
pub proof fn lemma_letters_from_alphabet(alphabet: Seq<char>, seed: u64, length: nat)
    requires
        alphabet.len() > 0,
    ensures
        letters(alphabet, wheel_values(seed, length)).len() == length,
        forall|i: int|
            0 <= i < length ==> alphabet.contains(
                #[trigger] letters(alphabet, wheel_values(seed, length))[i],
            ),
{
    lemma_wheel_len(seed, length);
    let vals = wheel_values(seed, length);
    assert forall|i: int| 0 <= i < length implies alphabet.contains(
        #[trigger] letters(alphabet, vals)[i],
    ) by {
        let j = reduce(vals[i], alphabet.len()) as int;
        assert(alphabet[j] == letters(alphabet, vals)[i]);
    }
}

/// The name that a list file of type `t` in language `l` has by default.
pub open spec fn list_head(t: ListType) -> Seq<char> {
    match t {
        ListType::Nouns => "nouns"@,
        ListType::Adjectives => "adjectives"@,
        ListType::Names => "names"@,
    }
}

/// The default path of the list of type `t` in language `l`.
pub open spec fn default_list_path(t: ListType, l: Languages) -> Seq<char> {
    "./lists/"@ + list_head(t) + "."@ + l.abbr_spec() + ".list"@
}

/// A list of words from which single words are drawn.
pub struct RandomWord {
    list: Vec<String>,
    list_type: ListType,
    language: Languages,
}

impl RandomWord {
    pub closed spec fn words(&self) -> Seq<Seq<char>> {
        views(self.list@)
    }

    pub closed spec fn list_type_spec(&self) -> ListType {
        self.list_type
    }

    pub closed spec fn language_spec(&self) -> Languages {
        self.language
    }

    /// What `get` gives with `seed`.
    pub open spec fn output(&self, seed: u64) -> Result<Seq<char>, DrawError> {
        if self.words().len() == 0 {
            Err(DrawError::EmptyList)
        } else {
            Ok(self.words()[reduce(scalar_value(seed), self.words().len()) as int])
        }
    }

    /// The path that `fill` reads for the source `s`: `s` itself, or the
    /// default path where `s` is empty.
    pub open spec fn source_path(&self, s: Seq<char>) -> Seq<char> {
        if s.len() == 0 {
            default_list_path(self.list_type_spec(), self.language_spec())
        } else {
            s
        }
    }

    pub fn new(list_type: ListType, language: Languages) -> (r: RandomWord)
        ensures
            r.words() == Seq::<Seq<char>>::empty(),
            r.list_type_spec() == list_type,
            r.language_spec() == language,
    {
        let list: Vec<String> = Vec::new();
        let r = RandomWord { list, list_type, language };
        assert(r.words() =~= Seq::<Seq<char>>::empty());
        r
    }

    pub fn add_word(&mut self, s: String)
        ensures
            final(self).words() == old(self).words().push(s@),
            final(self).list_type_spec() == old(self).list_type_spec(),
            final(self).language_spec() == old(self).language_spec(),
    {
        self.list.push(s);
        assert(final(self).words() =~= old(self).words().push(s@));
    }

    pub fn get_language(&self) -> (r: Languages)
        ensures
            r == self.language_spec(),
    {
        self.language
    }

    pub fn get_list_type(&self) -> (r: ListType)
        ensures
            r == self.list_type_spec(),
    {
        self.list_type
    }

    pub fn get_file_name(&self) -> (r: String)
        ensures
            r@ == default_list_path(self.list_type_spec(), self.language_spec()),
    {
        let head = match self.list_type {
            ListType::Nouns => "nouns",
            ListType::Adjectives => "adjectives",
            ListType::Names => "names",
        };
        let lang = self.language.abbr();
        let mut r = String::from_str("./lists/");
        r.append(head);
        r.append(".");
        r.append(lang.as_str());
        r.append(".list");
        r
    }

    pub fn get_list_len(&self) -> (r: usize)
        ensures
            r == self.words().len(),
    {
        self.list.len()
    }

    /// The path to read for the source `s`.
    pub fn list_path(&self, s: &str) -> (r: String)
        ensures
            r@ == self.source_path(s@),
    {
        if s.unicode_len() == 0 {
            self.get_file_name()
        } else {
            String::from_str(s)
        }
    }

    /// Appends the words of a list text: the text is cut at commas and line
    /// breaks, each piece is trimmed and empty pieces are left out. A list
    /// file that could not be read is an empty text.
    pub fn fill(&mut self, contents: &str)
        ensures
            final(self).words() == old(self).words() + list_words(contents@),
            final(self).list_type_spec() == old(self).list_type_spec(),
            final(self).language_spec() == old(self).language_spec(),
    {
        let words = parse_words(contents);
        let mut i: usize = 0;
        while i < words.len()
            invariant
                i <= words@.len(),
                views(words@) == list_words(contents@),
                self.words() == old(self).words() + views(words@).subrange(0, i as int),
                self.list_type_spec() == old(self).list_type_spec(),
                self.language_spec() == old(self).language_spec(),
            decreases words@.len() - i,
        {
            self.add_word(words[i].clone());
            assert(views(words@).subrange(0, i + 1) =~= views(words@).subrange(0, i as int).push(
                words@[i as int]@,
            ));
            assert(self.words() =~= old(self).words() + views(words@).subrange(0, i + 1));
            i = i + 1;
        }
        assert(views(words@).subrange(0, i as int) =~= views(words@));
    }

    /// Draws one word with a generator seeded afresh with `seed`.
    pub fn get(&self, seed: u64) -> (r: Result<String, DrawError>)
        ensures
            r matches Ok(s) ==> self.output(seed) == Ok::<Seq<char>, DrawError>(s@),
            r matches Err(e) ==> self.output(seed) == Err::<Seq<char>, DrawError>(e),
    {
        let mut rng = RNG::new();
        rng.seed(seed);
        let diclen = self.list.len();
        if diclen == 0 {
            return Err(DrawError::EmptyList);
        }
        let index = pick_index(rng.get(), diclen);
        Ok(self.list[index].clone())
    }
}

/// Every word drawn from a list is one of its words.
pub proof fn lemma_draw_is_member(w: RandomWord, seed: u64)
    requires
        w.words().len() > 0,
    ensures
        w.output(seed) is Ok,
        w.words().contains(w.output(seed)->Ok_0),
{
    let i = reduce(scalar_value(seed), w.words().len()) as int;
    assert(w.words()[i] == w.output(seed)->Ok_0);
}

/// The string made of an adjective `adj` and a second word `w`: in German
/// with a noun, the adjective inflected for the noun and joined to it;
/// otherwise `adj_w`.
pub open spec fn couple(l: Languages, second: ListType, adj: Seq<char>, w: Seq<char>) -> Seq<
    char,
> {
    if l.is_german_spec() && second is Nouns {
        adapted(adj, w, class_in(known_nouns(), w))
    } else {
        adj + seq!['_'] + w
    }
}

/// A generator that joins an adjective to a noun or a name.
pub struct CoupledWords {
    adjectives: RandomWord,
    second_type: ListType,
    language: Languages,
    type_list: RandomWord,
    nouns: GermanNounList,
}

impl CoupledWords {
    pub closed spec fn adjectives_spec(&self) -> RandomWord {
        self.adjectives
    }

    pub closed spec fn second_spec(&self) -> RandomWord {
        self.type_list
    }

    pub closed spec fn language_spec(&self) -> Languages {
        self.language
    }

    /// Both lists are in the generator's language, and the first is of
    /// adjectives.
    pub open spec fn wf(&self) -> bool {
        &&& self.adjectives_spec().list_type_spec() is Adjectives
        &&& self.adjectives_spec().language_spec() == self.language_spec()
        &&& self.second_spec().language_spec() == self.language_spec()
        &&& self.inner_wf()
    }

    /// The second list is of the generator's second type, and the noun table
    /// is filled just when the language is German.
    pub closed spec fn inner_wf(&self) -> bool {
        &&& self.type_list.list_type_spec() == self.second_type
        &&& self.nouns@ == (if self.language.is_german_spec() {
            known_nouns()
        } else {
            Seq::empty()
        })
    }

    /// What `get` gives with `seed`: the adjective is drawn with `seed`, the
    /// second word with the seed that follows it.
    pub open spec fn output(&self, seed: u64) -> Result<Seq<char>, DrawError> {
        let a = self.adjectives_spec().output(seed);
        let b = self.second_spec().output(advance(seed));
        if a is Err || b is Err {
            Err(DrawError::EmptyList)
        } else {
            Ok(
                couple(
                    self.language_spec(),
                    self.second_spec().list_type_spec(),
                    a->Ok_0,
                    b->Ok_0,
                ),
            )
        }
    }

    pub fn new(second_type: ListType, language: Languages) -> (r: CoupledWords)
        ensures
            r.wf(),
            r.adjectives_spec().words().len() == 0,
            r.second_spec().words().len() == 0,
            r.second_spec().list_type_spec() == second_type,
            r.language_spec() == language,
    {
        let adjectives = RandomWord::new(ListType::Adjectives, language);
        let type_list = RandomWord::new(second_type, language);
        let mut nouns = GermanNounList::new();
        if language.is_german() {
            nouns.fill();
        }
        proof {
            assert(Seq::<(Seq<char>, NounClass)>::empty() + known_nouns() =~= known_nouns());
        }
        CoupledWords { adjectives, second_type, language, type_list, nouns }
    }

    /// Fills the adjective list and the second list from their list texts.
    pub fn fill_lists(&mut self, adjectives: &str, second: &str)
        requires
            old(self).wf(),
        ensures
            final(self).wf(),
            final(self).adjectives_spec().words() == old(self).adjectives_spec().words()
                + list_words(adjectives@),
            final(self).second_spec().words() == old(self).second_spec().words() + list_words(
                second@,
            ),
            final(self).second_spec().list_type_spec() == old(self).second_spec().list_type_spec(),
            final(self).language_spec() == old(self).language_spec(),
    {
        self.adjectives.fill(adjectives);
        self.type_list.fill(second);
    }

    /// Draws an adjective and a second word and joins them.
    pub fn get(&self, seed: u64) -> (r: Result<String, DrawError>)
        requires
            self.wf(),
        ensures
            r matches Ok(s) ==> self.output(seed) == Ok::<Seq<char>, DrawError>(s@),
            r matches Err(e) ==> self.output(seed) == Err::<Seq<char>, DrawError>(e),
    {
        let adj = match self.adjectives.get(seed) {
            Ok(a) => a,
            Err(e) => return Err(e),
        };
        let s2 = match self.type_list.get(crate::rng::next_seed(seed)) {
            Ok(w) => w,
            Err(e) => return Err(e),
        };
        if self.language.is_german() && self.second_type.is_noun() {
            Ok(self.nouns.get_adapted(s2, adj))
        } else {
            let mut strong = adj;
            push_char(&mut strong, '_');
            strong.append(s2.as_str());
            assert(strong@ =~= adj@ + seq!['_'] + s2@);
            Ok(strong)
        }
    }
}

/// Why a run could not be configured.
#[derive(Clone, Copy, Debug, PartialEq, Eq, Structural)]
pub enum ConfigError {
    /// The amount is not a decimal `u32`.
    InvalidAmount,
    /// The length is not a decimal `u32`.
    InvalidLength,
}

/// The settings of one run.
pub struct Config {
    pub mode: Modes,
    pub length: u32,
    pub amount: u32,
    pub write_to_file: bool,
    /// The auxiliary parameter, read as the mode says.
    pub next: String,
}

pub const DEFAULT_AMOUNT: u32 = 16;

pub const DEFAULT_LENGTH: u32 = 12;

pub open spec fn amount_arg(args: Seq<String>) -> Option<u32> {
    if args.len() > 1 {
        parse_u32_spec(args[1]@)
    } else {
        Some(DEFAULT_AMOUNT)
    }
}

pub open spec fn length_arg(args: Seq<String>) -> Option<u32> {
    if args.len() > 2 {
        parse_u32_spec(args[2]@)
    } else {
        Some(DEFAULT_LENGTH)
    }
}

impl Config {
    /// Reads the settings from the command line: program name, amount,
    /// length, mode, auxiliary parameter and `1` to write to a file. Missing
    /// arguments take their defaults.
    pub fn new(args: &[String]) -> (r: Result<Config, ConfigError>)
        ensures
            amount_arg(args@) is None <==> r == Err::<Config, ConfigError>(
                ConfigError::InvalidAmount,
            ),
            amount_arg(args@) is Some && length_arg(args@) is None <==> r == Err::<
                Config,
                ConfigError,
            >(ConfigError::InvalidLength),
            amount_arg(args@) is Some && length_arg(args@) is Some ==> r is Ok,
            r matches Ok(c) ==> {
                &&& c.amount == amount_arg(args@)->Some_0
                &&& c.length == length_arg(args@)->Some_0
                &&& c.mode == (if args@.len() > 3 {
                    mode_of(args@[3]@)
                } else {
                    Modes::RandomLetters
                })
                &&& c.next@ == (if args@.len() > 4 {
                    args@[4]@
                } else {
                    Seq::empty()
                })
                &&& c.write_to_file == (args@.len() > 5 && args@[5]@ == "1"@)
            },
    {
        let mut amount: u32 = DEFAULT_AMOUNT;
        let mut mode = Modes::RandomLetters;
        let mut write_to_file = false;
        let mut next = String::new();
        let mut length: u32 = DEFAULT_LENGTH;
        if args.len() > 1 {
            match parse_u32(args[1].as_str()) {
                Some(n) => amount = n,
                None => return Err(ConfigError::InvalidAmount),
            }
        }
        if args.len() > 2 {
            match parse_u32(args[2].as_str()) {
                Some(n) => length = n,
                None => return Err(ConfigError::InvalidLength),
            }
        }
        if args.len() > 3 {
            mode = Modes::from_id(args[3].as_str());
        }
        if args.len() > 4 {
            next = args[4].clone();
        }
        if args.len() > 5 {
            write_to_file = same_text(args[5].as_str(), "1");
        }
        Ok(Config { mode, length, amount, write_to_file, next })
    }
}

/// Why a generator could not be set up.
#[derive(Clone, Copy, Debug, PartialEq, Eq, Structural)]
pub enum SetupError {
    /// The parameter of the two-file mode is not `adjectives:second`.
    MalformedListFiles,
}

/// One generator of any kind.
pub enum Generator {
    Letters(LettterSequence),
    Word(RandomWord),
    Coupled(CoupledWords),
}

/// The two paths that the two-file mode names: the parameter cut at its
/// colons, of which there must be at least one.
pub open spec fn list_file_pair(next: Seq<char>) -> Option<(Seq<char>, Seq<char>)> {
    let ps = pieces(next, ':', ':');
    if ps.len() < 2 {
        None
    } else {
        Some((ps[0], ps[1]))
    }
}

impl Generator {
    pub open spec fn wf(&self) -> bool {
        match self {
            Generator::Coupled(c) => c.wf(),
            _ => true,
        }
    }

    /// What `get` gives with `seed`.
    pub open spec fn output(&self, seed: u64) -> Result<Seq<char>, DrawError> {
        match self {
            Generator::Letters(l) => l.output(seed),
            Generator::Word(w) => w.output(seed),
            Generator::Coupled(c) => c.output(seed),
        }
    }

    /// The files that setting up for `conf` reads, in order.
    pub open spec fn sources(&self, conf: &Config) -> Result<Seq<Seq<char>>, SetupError> {
        match self {
            Generator::Letters(_) => if conf.mode is RandomLettersFromAlphabetFile {
                Ok(seq![conf.next@])
            } else {
                Ok(Seq::empty())
            },
            Generator::Word(w) => if conf.mode is RandomWordFromListFile {
                Ok(seq![w.source_path(conf.next@)])
            } else {
                Ok(seq![w.source_path(Seq::empty())])
            },
            Generator::Coupled(c) => if conf.mode is CoupledWordsNouns || conf.mode is CoupledWordsNames {
                Ok(
                    seq![
                        c.adjectives_spec().source_path(Seq::empty()),
                        c.second_spec().source_path(Seq::empty()),
                    ],
                )
            } else if conf.mode is CoupledWordsListFiles {
                match list_file_pair(conf.next@) {
                    None => Err(SetupError::MalformedListFiles),
                    Some(p) => Ok(
                        seq![
                            c.adjectives_spec().source_path(p.0),
                            c.second_spec().source_path(p.1),
                        ],
                    ),
                }
            } else {
                Ok(Seq::empty())
            },
        }
    }

    /// Whether `after` is `self` set up for `conf` with the texts `contents`
    /// of its sources: a letter generator takes its alphabet from the
    /// parameter, the file or the language, as the mode says; word lists
    /// take the words of their texts.
    pub open spec fn set_up(&self, conf: &Config, contents: Seq<Seq<char>>, after: Generator) -> bool {
        match (*self, after) {
            (Generator::Letters(l), Generator::Letters(m)) => {
                &&& m.length_spec() == l.length_spec()
                &&& m.alphabet_spec() == (match conf.mode {
                    Modes::RandomLettersFromCustomAlphabet => conf.next@,
                    Modes::RandomLettersFromAlphabetFile => contents[0],
                    Modes::RandomLetters => language_of(conf.next@).alphabet_spec(),
                    _ => l.alphabet_spec(),
                })
            },
            (Generator::Word(w), Generator::Word(v)) => {
                &&& v.list_type_spec() == w.list_type_spec()
                &&& v.language_spec() == w.language_spec()
                &&& v.words() == w.words() + list_words(contents[0])
            },
            (Generator::Coupled(c), Generator::Coupled(d)) => {
                &&& d.language_spec() == c.language_spec()
                &&& d.second_spec().list_type_spec() == c.second_spec().list_type_spec()
                &&& if contents.len() == 2 {
                    &&& d.adjectives_spec().words() == c.adjectives_spec().words() + list_words(
                        contents[0],
                    )
                    &&& d.second_spec().words() == c.second_spec().words() + list_words(
                        contents[1],
                    )
                } else {
                    &&& d.adjectives_spec().words() == c.adjectives_spec().words()
                    &&& d.second_spec().words() == c.second_spec().words()
                }
            },
            _ => false,
        }
    }

    /// The paths of the files that `setup` needs for `conf`.
    pub fn setup_sources(&self, conf: &Config) -> (r: Result<Vec<String>, SetupError>)
        ensures
            r matches Ok(v) ==> self.sources(conf) == Ok::<Seq<Seq<char>>, SetupError>(views(v@)),
            r matches Err(e) ==> self.sources(conf) == Err::<Seq<Seq<char>>, SetupError>(e),
    {
        let mut v: Vec<String> = Vec::new();
        proof {
            reveal_strlit("");
        }
        match self {
            Generator::Letters(_) => {
                if matches!(conf.mode, Modes::RandomLettersFromAlphabetFile) {
                    v.push(conf.next.clone());
                }
            },
            Generator::Word(w) => {
                if matches!(conf.mode, Modes::RandomWordFromListFile) {
                    v.push(w.list_path(conf.next.as_str()));
                } else {
                    v.push(w.list_path(""));
                }
            },
            Generator::Coupled(c) => {
                match conf.mode {
                    Modes::CoupledWordsNouns | Modes::CoupledWordsNames => {
                        v.push(c.adjectives.list_path(""));
                        v.push(c.type_list.list_path(""));
                    },
                    Modes::CoupledWordsListFiles => {
                        let chars = chars_of(conf.next.as_str());
                        let names = split_pieces(&chars, ':', ':');
                        if names.len() < 2 {
                            return Err(SetupError::MalformedListFiles);
                        }
                        let first = string_of(&names[0], 0, names[0].len());
                        let second = string_of(&names[1], 0, names[1].len());
                        assert(first@ =~= names@[0]@);
                        assert(second@ =~= names@[1]@);
                        v.push(c.adjectives.list_path(first.as_str()));
                        v.push(c.type_list.list_path(second.as_str()));
                        assert(list_file_pair(conf.next@) == Some((first@, second@)));
                        assert(views(v@) =~= self.sources(conf)->Ok_0);
                    },
                    _ => {},
                }
            },
        }
        assert(self.sources(conf) == Ok::<Seq<Seq<char>>, SetupError>(views(v@))) by {
            assert(views(v@) =~= self.sources(conf)->Ok_0);
        }
        Ok(v)
    }

    /// Sets the generator up for `conf`; `contents` holds the texts of the
    /// files that `setup_sources` named, in the same order.
    pub fn setup(&mut self, conf: &Config, contents: &Vec<String>)
        requires
            old(self).wf(),
            old(self).sources(conf) is Ok,
            contents@.len() == old(self).sources(conf)->Ok_0.len(),
        ensures
            final(self).wf(),
            old(self).set_up(conf, views(contents@), *final(self)),
    {
        match self {
            Generator::Letters(l) => {
                match conf.mode {
                    Modes::RandomLettersFromCustomAlphabet => l.set_alphabet(conf.next.as_str()),
                    Modes::RandomLettersFromAlphabetFile => l.set_alphabet(contents[0].as_str()),
                    Modes::RandomLetters => {
                        let lang = Languages::from_id(conf.next.as_str());
                        let alphabet = lang.get_alphabet();
                        l.set_alphabet(alphabet.as_str());
                    },
                    _ => {},
                }
            },
            Generator::Word(w) => {
                w.fill(contents[0].as_str());
            },
            Generator::Coupled(c) => {
                if contents.len() == 2 {
                    c.fill_lists(contents[0].as_str(), contents[1].as_str());
                }
            },
        }
    }

    /// Draws one string with `seed`.
    pub fn get(&mut self, seed: u64) -> (r: Result<String, DrawError>)
        requires
            old(self).wf(),
        ensures
            final(self).wf(),
            forall|s: u64| #[trigger] final(self).output(s) == old(self).output(s),
            r matches Ok(s) ==> old(self).output(seed) == Ok::<Seq<char>, DrawError>(s@),
            r matches Err(e) ==> old(self).output(seed) == Err::<Seq<char>, DrawError>(e),
    {
        match self {
            Generator::Letters(l) => l.get(seed),
            Generator::Word(w) => w.get(seed),
            Generator::Coupled(c) => c.get(seed),
        }
    }
}

/// The generator for the mode of `conf`, not yet set up.
pub open spec fn made_for(g: Generator, conf: &Config) -> bool {
    match conf.mode {
        Modes::RandomWord | Modes::RandomWordFromListFile => g matches Generator::Word(w) && w.words().len() == 0
            && w.list_type_spec() is Nouns && w.language_spec() == language_of(conf.next@),
        Modes::CoupledWordsNouns | Modes::CoupledWordsNames | Modes::CoupledWordsListFiles => {
            g matches Generator::Coupled(c) && c.adjectives_spec().words().len() == 0
                && c.second_spec().words().len() == 0 && c.language_spec() == language_of(
                conf.next@,
            ) && c.second_spec().list_type_spec() == (if conf.mode is CoupledWordsNouns {
                ListType::Nouns
            } else {
                ListType::Names
            })
        },
        _ => g matches Generator::Letters(l) && l.alphabet_spec() == "abc"@ && l.length_spec()
            == conf.length,
    }
}

/// Builds the generator that the mode of `conf` asks for.
pub fn stringer(conf: &Config) -> (g: Generator)
    ensures
        g.wf(),
        made_for(g, conf),
{
    match conf.mode {
        Modes::RandomWord | Modes::RandomWordFromListFile => Generator::Word(
            RandomWord::new(ListType::Nouns, Languages::from_id(conf.next.as_str())),
        ),
        Modes::CoupledWordsNouns => Generator::Coupled(
            CoupledWords::new(ListType::Nouns, Languages::from_id(conf.next.as_str())),
        ),
        Modes::CoupledWordsNames | Modes::CoupledWordsListFiles => Generator::Coupled(
            CoupledWords::new(ListType::Names, Languages::from_id(conf.next.as_str())),
        ),
        _ => Generator::Letters(LettterSequence::new("abc", conf.length as usize)),
    }
}

/// The seed of the `i`-th draw of a run seeded with `seed`.
pub open spec fn draw_seed(seed: u64, amount: nat, i: int) -> u64 {
    wheel_values(seed, amount)[i]
}

/// Draws `amount` strings, each with a seed of its own taken from a wheel
/// seeded with `seed`; stops at the first draw that fails.
pub fn generate(g: &mut Generator, amount: u32, seed: u64) -> (r: Result<Vec<String>, DrawError>)
    requires
        old(g).wf(),
    ensures
        final(g).wf(),
        forall|s: u64| #[trigger] final(g).output(s) == old(g).output(s),
        r matches Ok(lines) ==> lines@.len() == amount && forall|i: int|
            0 <= i < amount ==> old(g).output(draw_seed(seed, amount as nat, i)) == Ok::<
                Seq<char>,
                DrawError,
            >(#[trigger] lines@[i]@),
        r matches Err(e) ==> exists|i: int|
            0 <= i < amount && old(g).output(#[trigger] draw_seed(seed, amount as nat, i)) == Err::<
                Seq<char>,
                DrawError,
            >(e),
{
    let mut wheel = RNGWheel::new(amount as usize, seed);
    let ghost seeds = wheel_values(seed, amount as nat);
    proof {
        lemma_wheel_len(seed, amount as nat);
    }
    let mut lines: Vec<String> = Vec::new();
    let mut i: usize = 0;
    while i < amount as usize
        invariant
            i <= amount,
            seeds.len() == amount,
            seeds == wheel_values(seed, amount as nat),
            wheel.pending() == seeds.subrange(i as int, amount as int),
            lines@.len() == i,
            g.wf(),
            forall|s: u64| #[trigger] g.output(s) == old(g).output(s),
            forall|k: int|
                0 <= k < i ==> old(g).output(seeds[k]) == Ok::<Seq<char>, DrawError>(
                    #[trigger] lines@[k]@,
                ),
        decreases amount - i,
    {
        let ghost rest = wheel.pending();
        let s = match wheel.next_value() {
            Some(s) => s,
            None => {
                // never taken: the wheel holds one seed for each line
                assert(rest.len() > 0);
                return Err(DrawError::EmptyList);
            },
        };
        assert(s == seeds[i as int]);
        assert(seeds.subrange(i as int, amount as int).drop_first() =~= seeds.subrange(
            i + 1,
            amount as int,
        ));
        match g.get(s) {
            Ok(line) => lines.push(line),
            Err(e) => {
                assert(old(g).output(draw_seed(seed, amount as nat, i as int)) == Err::<
                    Seq<char>,
                    DrawError,
                >(e));
                return Err(e);
            },
        }
        i = i + 1;
    }
    Ok(lines)
}

/// Outside German, a coupled string is always the adjective, an underscore
/// and the second word, each drawn from its own list.
pub proof fn lemma_plain_coupling(c: CoupledWords, seed: u64)
    requires
        c.wf(),
        !c.language_spec().is_german_spec(),
        c.output(seed) is Ok,
    ensures
        c.output(seed)->Ok_0 == c.adjectives_spec().output(seed)->Ok_0 + seq!['_']
            + c.second_spec().output(advance(seed))->Ok_0,
{
}

/// In German with nouns, a coupled string of words free of underscores holds
/// no underscore: the adapted compound has no separator.
pub proof fn lemma_german_coupling_has_no_underscore(c: CoupledWords, seed: u64)
    requires
        c.wf(),
        c.language_spec().is_german_spec(),
        c.second_spec().list_type_spec() is Nouns,
        c.output(seed) is Ok,
        forall|i: int|
            0 <= i < c.adjectives_spec().words().len() ==> !(
            #[trigger] c.adjectives_spec().words()[i]).contains('_'),
        forall|i: int|
            0 <= i < c.second_spec().words().len() ==> !(
            #[trigger] c.second_spec().words()[i]).contains('_'),
    ensures
        !(c.output(seed)->Ok_0).contains('_'),
{
    let a = c.adjectives_spec();
    let b = c.second_spec();
    let ia = reduce(scalar_value(seed), a.words().len()) as int;
    let ib = reduce(scalar_value(advance(seed)), b.words().len()) as int;
    assert(!a.words()[ia].contains('_'));
    assert(!b.words()[ib].contains('_'));
    lemma_adapted_has_no_underscore(
        a.words()[ia],
        b.words()[ib],
        class_in(known_nouns(), b.words()[ib]),
    );
}

/// A list filled from an empty text, as from a file that could not be read,
/// holds no word, and every draw from it fails.
pub proof fn lemma_unread_list_fails(w: RandomWord, seed: u64)
    requires
        w.words() == list_words(Seq::empty()),
    ensures
        w.words().len() == 0,
        w.output(seed) == Err::<Seq<char>, DrawError>(DrawError::EmptyList),
{
    let ps = pieces(Seq::<char>::empty(), ',', '\n');
    assert(ps.drop_last() =~= Seq::<Seq<char>>::empty());
    assert(crate::text::trim_start(Seq::<char>::empty()) =~= Seq::<char>::empty());
    assert(crate::text::trim_end(Seq::<char>::empty()) =~= Seq::<char>::empty());
    assert(crate::text::kept(ps.drop_last()) =~= Seq::<Seq<char>>::empty());
    assert(crate::text::kept(ps) =~= Seq::<Seq<char>>::empty());
}

} // verus!