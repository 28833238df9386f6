use vstd::prelude::*;
use vstd::string::*;

use crate::text::push_char;

verus! {

/// The grammatical gender of a German noun, which decides the ending of an
/// adjective in front of it.
#[derive(Clone, Copy, Debug, PartialEq, Eq, Structural)]
pub enum NounClass {
    Masculine,
    Feminine,
    Neuter,
}

/// The class given to a noun that the table does not hold: feminine, the
/// most frequent gender among German nouns.
pub const DEFAULT_NOUN_CLASS: NounClass = NounClass::Feminine;

/// The strong ending of an adjective before a noun of class `c`, as in
/// "großer Hund", "große Katze", "großes Haus".
pub open spec fn ending(c: NounClass) -> Seq<char> {
    match c {
        NounClass::Masculine => seq!['e', 'r'],
        NounClass::Feminine => seq!['e'],
        NounClass::Neuter => seq!['e', 's'],
    }
}

/// The adjective without a final `e`, which its ending brings back.
pub open spec fn stem(adj: Seq<char>) -> Seq<char> {
    if adj.len() > 0 && adj.last() == 'e' {
        adj.drop_last()
    } else {
        adj
    }
}

/// The compound of an inflected adjective and a noun of class `c`: stem,
/// ending and noun, joined with no separator ("schnellerHund").
pub open spec fn adapted(adj: Seq<char>, noun: Seq<char>, c: NounClass) -> Seq<char> {
    stem(adj) + ending(c) + noun
}

/// The class that a table gives a noun: that of its first entry for the noun,
/// else `DEFAULT_NOUN_CLASS`.
pub open spec fn class_in(entries: Seq<(Seq<char>, NounClass)>, noun: Seq<char>) -> NounClass
    decreases entries.len(),
{
    if entries.len() == 0 {
        DEFAULT_NOUN_CLASS
    } else if entries[0].0 == noun {
        entries[0].1
    } else {
        class_in(entries.drop_first(), noun)
    }
}

/// The nouns that a filled table knows, with their classes.
#[verifier::opaque]
pub open spec fn known_nouns() -> Seq<(Seq<char>, NounClass)> {
    seq![
        ("Hund"@, NounClass::Masculine),
        ("Baum"@, NounClass::Masculine),
        ("Vogel"@, NounClass::Masculine),
        ("Fisch"@, NounClass::Masculine),
        ("Fuchs"@, NounClass::Masculine),
        ("Mond"@, NounClass::Masculine),
        ("Katze"@, NounClass::Feminine),
        ("Blume"@, NounClass::Feminine),
        ("Stadt"@, NounClass::Feminine),
        ("Sonne"@, NounClass::Feminine),
        ("Eule"@, NounClass::Feminine),
        ("Wolke"@, NounClass::Feminine),
        ("Haus"@, NounClass::Neuter),
        ("Kind"@, NounClass::Neuter),
        ("Buch"@, NounClass::Neuter),
        ("Pferd"@, NounClass::Neuter),
        ("Schiff"@, NounClass::Neuter),
        ("Lamm"@, NounClass::Neuter),
    ]
}

/// A table from German nouns to their classes.
pub struct GermanNounList {
    entries: Vec<(String, NounClass)>,
}

impl View for GermanNounList {
    type V = Seq<(Seq<char>, NounClass)>;

    closed spec fn view(&self) -> Seq<(Seq<char>, NounClass)> {
        self.entries@.map_values(|e: (String, NounClass)| (e.0@, e.1))
    }
}

impl GermanNounList {
    pub fn new() -> (t: GermanNounList)
        ensures
            t@ == Seq::<(Seq<char>, NounClass)>::empty(),
    {
        let t = GermanNounList { entries: Vec::new() };
        assert(t@ =~= Seq::<(Seq<char>, NounClass)>::empty());
        t
    }

    pub fn add_entry(&mut self, noun: &str, class: NounClass)
        ensures
            final(self)@ == old(self)@.push((noun@, class)),
    {
        self.entries.push((String::from_str(noun), class));
        assert(final(self)@ =~= old(self)@.push((noun@, class)));
    }

    /// Adds the nouns of `known_nouns` after the entries already there.
    pub fn fill(&mut self)
        ensures
            final(self)@ == old(self)@ + known_nouns(),
    {
        self.add_entry("Hund", NounClass::Masculine);
        self.add_entry("Baum", NounClass::Masculine);
        self.add_entry("Vogel", NounClass::Masculine);
        self.add_entry("Fisch", NounClass::Masculine);
        self.add_entry("Fuchs", NounClass::Masculine);
        self.add_entry("Mond", NounClass::Masculine);
        self.add_entry("Katze", NounClass::Feminine);
        self.add_entry("Blume", NounClass::Feminine);
        self.add_entry("Stadt", NounClass::Feminine);
        self.add_entry("Sonne", NounClass::Feminine);
        self.add_entry("Eule", NounClass::Feminine);
        self.add_entry("Wolke", NounClass::Feminine);
        self.add_entry("Haus", NounClass::Neuter);
        self.add_entry("Kind", NounClass::Neuter);
        self.add_entry("Buch", NounClass::Neuter);
        self.add_entry("Pferd", NounClass::Neuter);
        self.add_entry("Schiff", NounClass::Neuter);
        self.add_entry("Lamm", NounClass::Neuter);
        reveal(known_nouns);
        assert(final(self)@ =~= old(self)@ + known_nouns());
    }

    /// The class of `noun` in this table.
    pub fn class_of(&self, noun: &String) -> (c: NounClass)
        ensures
            c == class_in(self@, noun@),
    {
        let mut i: usize = 0;
        assert(self@.subrange(0, self@.len() as int) =~= self@);
        while i < self.entries.len()
            invariant
                i <= self@.len(),
                self@.len() == self.entries@.len(),
                class_in(self@, noun@) == class_in(self@.subrange(i as int, self@.len() as int), noun@),
            decreases self@.len() - i,
        {
            let ghost rest = self@.subrange(i as int, self@.len() as int);
            assert(rest.drop_first() =~= self@.subrange(i + 1, self@.len() as int));
            if self.entries[i].0 == *noun {
                return self.entries[i].1;
            }
            i = i + 1;
        }
        DEFAULT_NOUN_CLASS
    }

    /// The adjective inflected for `noun` and joined to it.
    pub fn get_adapted(&self, noun: String, adj: String) -> (r: String)
        ensures
            r@ == adapted(adj@, noun@, class_in(self@, noun@)),
    {
        let c = self.class_of(&noun);
        render_adapted(&adj, &noun, c)
    }
}

/// Writes the compound of `adj` inflected for class `c` and `noun`.
pub fn render_adapted(adj: &String, noun: &String, c: NounClass) -> (r: String)
    ensures
        r@ == adapted(adj@, noun@, c),
{
    let a = crate::text::chars_of(adj.as_str());
    let keep = if a.len() > 0 && a[a.len() - 1] == 'e' {
        a.len() - 1
    } else {
        a.len()
    };
    let mut r = crate::text::string_of(&a, 0, keep);
    assert(r@ == stem(adj@)) by {
        if !(adj@.len() > 0 && adj@.last() == 'e') {
            assert(a@.subrange(0, keep as int) =~= adj@);
        }
    }
    push_char(&mut r, 'e');
    match c {
        NounClass::Masculine => push_char(&mut r, 'r'),
        NounClass::Feminine => {},
        NounClass::Neuter => push_char(&mut r, 's'),
    }
    assert(r@ =~= stem(adj@) + ending(c));
    r.append(noun.as_str());
    r
}

/// A compound of words free of underscores holds no underscore.
pub proof fn lemma_adapted_has_no_underscore(adj: Seq<char>, noun: Seq<char>, c: NounClass)
    requires
        !adj.contains('_'),
        !noun.contains('_'),
    ensures
        !adapted(adj, noun, c).contains('_'),
{
    let r = adapted(adj, noun, c);
    let s = stem(adj);
    let e = ending(c);
    assert forall|i: int| 0 <= i < r.len() implies r[i] != '_' by {
        if i < s.len() {
            assert(r[i] == adj[i]);
        } else if i < s.len() + e.len() {
            assert(r[i] == e[i - s.len()]);
        } else {
            assert(r[i] == noun[i - s.len() - e.len()]);
        }
    }
}

} // verus!
