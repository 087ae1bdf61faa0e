use vstd::prelude::*;

use crate::errors::AppError;
use rand::rngs::ThreadRng;
use rand::seq::SliceRandom;
use rand::Rng;

verus! {

/// rand's thread-local generator, `rand::rngs::ThreadRng`, carried through as an opaque
/// value and handed to rand's sampling functions.
#[verifier::external_type_specification]
#[verifier::external_body]
pub struct ExThreadRng(ThreadRng);

/// The characters that `char::to_uppercase` yields for `c`.
pub uninterp spec fn uppercase_of(c: char) -> Seq<char>;

/// Relies on `char::to_uppercase`: the uppercase mapping of `c`, which depends on `c`
/// alone.
#[verifier::external_body]
fn uppercase(c: char) -> (r: String)
    ensures
        r@ == uppercase_of(c),
{
    c.to_uppercase().to_string()
}

/// The decimal digit `d`.
pub open spec fn digit_char(d: nat) -> char {
    seq!['0', '1', '2', '3', '4', '5', '6', '7', '8', '9'][d as int]
}

/// The decimal representation of `n`, without leading zeros.
pub open spec fn decimal(n: nat) -> Seq<char>
    decreases n,
{
    if n < 10 {
        seq![digit_char(n)]
    } else {
        decimal(n / 10) + seq![digit_char(n % 10)]
    }
}

/// The digit `d` as text.
fn digit_text(d: u32) -> (r: &'static str)
    requires
        d < 10,
    ensures
        r@ == seq![digit_char(d as nat)],
{
    let digits = "0123456789";
    proof {
        reveal_strlit("0123456789");
        assert(digits@ =~= seq!['0', '1', '2', '3', '4', '5', '6', '7', '8', '9']);
    }
    let r = digits.substring_char(d as usize, d as usize + 1);
    proof {
        assert(r@ =~= seq![digit_char(d as nat)]);
    }
    r
}

/// The decimal digits of `n`, with no sign and no leading zeros.
pub fn decimal_string(n: u32) -> (r: String)
    ensures
        r@ == decimal(n as nat),
    decreases n,
{
    if n < 10 {
        String::from_str(digit_text(n))
    } else {
        decimal_string(n / 10).concat(digit_text(n % 10))
    }
}

/// Relies on rand's `SliceRandom::choose`: `None` exactly when `words` is empty, else a
/// reference to one of its elements.
#[verifier::external_body]
fn choose_word<'a>(words: &'a Vec<String>, rng: &mut ThreadRng) -> (r: Option<&'a String>)
    ensures
        r is Some <==> words@.len() > 0,
        r matches Some(w) ==> words@.contains(*w),
{
    words.choose(rng)
}

/// Relies on rand's `Rng::gen_range` over `0..bound`: a value below `bound`. The range
/// must not be empty, or it panics.
#[verifier::external_body]
fn number_below(rng: &mut ThreadRng, bound: u32) -> (r: u32)
    requires
        bound > 0,
    ensures
        r < bound,
{
    rng.gen_range(0..bound)
}

/// `s` with its first character in upper case.
pub open spec fn title_case(s: Seq<char>) -> Seq<char> {
    if s.len() == 0 {
        s
    } else {
        uppercase_of(s[0]) + s.drop_first()
    }
}

/// The alias made of `adjective`, `noun` and `number`: the adjective in title case, then
/// the noun, then the number's digits.
pub open spec fn alias_from(adjective: Seq<char>, noun: Seq<char>, number: nat) -> Seq<char> {
    title_case(adjective) + noun + decimal(number)
}

/// `line` without a final carriage return.
pub open spec fn without_cr(line: Seq<char>) -> Seq<char> {
    if line.len() > 0 && line.last() == '\r' {
        line.drop_last()
    } else {
        line
    }
}

/// The lines of `s` that end in a line feed, and the text after the last line feed.
pub open spec fn split_state(s: Seq<char>) -> (Seq<Seq<char>>, Seq<char>)
    decreases s.len(),
{
    if s.len() == 0 {
        (Seq::empty(), Seq::empty())
    } else {
        let (done, rest) = split_state(s.drop_last());
        if s.last() == '\n' {
            (done.push(without_cr(rest)), Seq::empty())
        } else {
            (done, rest.push(s.last()))
        }
    }
}

/// The lines of `s`: split at each line feed, with a carriage return just before the
/// line feed dropped; text after the last line feed is a line when it is not empty.
pub open spec fn lines_of(s: Seq<char>) -> Seq<Seq<char>> {
    let (done, rest) = split_state(s);
    if rest.len() == 0 {
        done
    } else {
        done.push(rest)
    }
}

/// The text of each string of `v`.
pub open spec fn views(v: Seq<String>) -> Seq<Seq<char>> {
    v.map_values(|l: String| l@)
}

/// The lines of `text`.
pub fn split_lines(text: &str) -> (r: Vec<String>)
    ensures
        views(r@) == lines_of(text@),
{
    let n = text.unicode_len();
    let mut lines: Vec<String> = Vec::new();
    let mut start: usize = 0;
    let mut i: usize = 0;
    while i < n
        invariant
            n == text@.len(),
            start <= i <= n,
            split_state(text@.subrange(0, i as int)).0 == views(lines@),
            split_state(text@.subrange(0, i as int)).1 == text@.subrange(start as int, i as int),
        decreases n - i,
    {
        let ghost prefix = text@.subrange(0, i as int);
        let ghost cur = text@.subrange(start as int, i as int);
        proof {
            assert(text@.subrange(0, i + 1).drop_last() =~= prefix);
        }
        if text.get_char(i) == '\n' {
            let end = if i > start && text.get_char(i - 1) == '\r' {
                i - 1
            } else {
                i
            };
            let line = String::from_str(text.substring_char(start, end));
            proof {
                assert(line@ =~= without_cr(cur));
            }
            let ghost before = lines@;
            lines.push(line);
            proof {
                assert(views(lines@) =~= views(before).push(line@));
                assert(text@.subrange(i + 1, i + 1) =~= Seq::<char>::empty());
            }
            start = i + 1;
        } else {
            proof {
                assert(text@.subrange(start as int, i + 1) =~= cur.push(text@[i as int]));
            }
        }
        i = i + 1;
    }
    proof {
        assert(text@.subrange(0, n as int) =~= text@);
    }
    if start < n {
        let ghost before = lines@;
        lines.push(String::from_str(text.substring_char(start, n)));
        proof {
            assert(views(lines@) =~= views(before).push(text@.subrange(start as int, n as int)));
        }
    }
    lines
}

/// `lines` holds at least one line, and none of them is empty.
pub open spec fn usable_lines(lines: Seq<Seq<char>>) -> bool {
    lines.len() > 0 && forall|i: int| 0 <= i < lines.len() ==> (#[trigger] lines[i]).len() > 0
}

proof fn lemma_usable_views(words: Seq<String>)
    ensures
        usable_words(words) <==> usable_lines(views(words)),
{
    if usable_lines(views(words)) {
        assert forall|i: int| 0 <= i < words.len() implies (#[trigger] words[i])@.len() > 0 by {
            assert(views(words)[i] == words[i]@);
        }
    }
}

/// The numbers that a generated name ends with are below this bound.
pub const NUMBER_BOUND: u32 = 1000;

/// A candidate alias: a capitalized adjective, a noun and a number, with no separators.
#[derive(Debug)]
pub struct GeneratedName(pub String);

/// A source of candidate aliases.
pub trait NameGeneratorTrait {
    /// Whether `name` is one of the aliases this source can draw.
    spec fn can_produce(&self, name: Seq<char>) -> bool;

    /// Draws a candidate alias; it is never empty.
    fn make_random_name(&self, rng: &mut ThreadRng) -> (r: GeneratedName)
        ensures
            r.0@.len() > 0,
            self.can_produce(r.0@),
    ;
}

/// `words` holds at least one word, and none of them is empty.
pub open spec fn usable_words(words: Seq<String>) -> bool {
    words.len() > 0 && forall|i: int| 0 <= i < words.len() ==> (#[trigger] words[i])@.len() > 0
}

/// Whether every word of `words` is non-empty.
fn no_empty_word(words: &Vec<String>) -> (r: bool)
    ensures
        r == forall|i: int| 0 <= i < words@.len() ==> (#[trigger] words@[i])@.len() > 0,
{
    let mut i: usize = 0;
    while i < words.len()
        invariant
            i <= words@.len(),
            forall|j: int| 0 <= j < i ==> (#[trigger] words@[j])@.len() > 0,
        decreases words@.len() - i,
    {
        if words[i].as_str().unicode_len() == 0 {
            return false;
        }
        i = i + 1;
    }
    true
}

/// Makes aliases from two fixed, non-empty word lists.
pub struct NameGenerator {
    adjectives: Vec<String>,
    nouns: Vec<String>,
}

/// `random_adjective` with its first character in upper case.
pub fn make_title_case(random_adjective: &String) -> (r: String)
    requires
        random_adjective@.len() > 0,
    ensures
        r@ == title_case(random_adjective@),
{
    let s = random_adjective.as_str();
    let n = s.unicode_len();
    let first = s.get_char(0);
    let rest = s.substring_char(1, n);
    proof {
        assert(rest@ =~= random_adjective@.drop_first());
    }
    uppercase(first).concat(rest)
}

proof fn lemma_decimal_not_empty(n: nat)
    ensures
        decimal(n).len() > 0,
{
}

impl NameGenerator {
    #[verifier::type_invariant]
    spec fn inv(self) -> bool {
        usable_words(self.adjectives@) && usable_words(self.nouns@)
    }

    /// The adjectives to draw from.
    pub closed spec fn adjective_list(&self) -> Seq<String> {
        self.adjectives@
    }

    /// The nouns to draw from.
    pub closed spec fn noun_list(&self) -> Seq<String> {
        self.nouns@
    }

    /// A generator over the given lists; both must be non-empty and hold no empty
    /// word.
    pub fn new(adjectives: Vec<String>, nouns: Vec<String>) -> (r: Result<NameGenerator, AppError>)
        ensures
            r is Ok <==> usable_words(adjectives@) && usable_words(nouns@),
            r matches Ok(g) ==> g.adjective_list() == adjectives@ && g.noun_list() == nouns@,
            r matches Err(e) ==> e is InfraError,
    {
        if adjectives.len() == 0 {
            return Err(AppError::InfraError(String::from_str("the adjective list is empty")));
        }
        if nouns.len() == 0 {
            return Err(AppError::InfraError(String::from_str("the noun list is empty")));
        }
        if !no_empty_word(&adjectives) {
            return Err(AppError::InfraError(String::from_str("the adjective list holds an empty line")));
        }
        if !no_empty_word(&nouns) {
            return Err(AppError::InfraError(String::from_str("the noun list holds an empty line")));
        }
        Ok(NameGenerator { adjectives, nouns })
    }

    /// A generator over the words of two line-delimited lists, one word per line;
    /// both lists must hold at least one line, and no line may be empty.
    pub fn from_word_lists(adjectives: &str, nouns: &str) -> (r: Result<NameGenerator, AppError>)
        ensures
            r is Ok <==> usable_lines(lines_of(adjectives@)) && usable_lines(lines_of(nouns@)),
            r matches Ok(g) ==> views(g.adjective_list()) == lines_of(adjectives@) && views(
                g.noun_list(),
            ) == lines_of(nouns@),
            r matches Err(e) ==> e is InfraError,
    {
        let a = split_lines(adjectives);
        let n = split_lines(nouns);
        proof {
            lemma_usable_views(a@);
            lemma_usable_views(n@);
        }
        NameGenerator::new(a, n)
    }

    /// The adjectives to draw from.
    pub fn adjectives(&self) -> (r: &Vec<String>)
        ensures
            r@ == self.adjective_list(),
            r@.len() > 0,
    {
        proof {
            use_type_invariant(self);
        }
        &self.adjectives
    }

    /// The nouns to draw from.
    pub fn nouns(&self) -> (r: &Vec<String>)
        ensures
            r@ == self.noun_list(),
            r@.len() > 0,
    {
        proof {
            use_type_invariant(self);
        }
        &self.nouns
    }

    /// The alias made of the given adjective, noun and number.
    pub fn name_from(adjective: &String, noun: &String, number: u32) -> (r: GeneratedName)
        requires
            adjective@.len() > 0,
        ensures
            r.0@ == alias_from(adjective@, noun@, number as nat),
    {
        let title = make_title_case(adjective);
        let digits = decimal_string(number);
        GeneratedName(title.concat(noun.as_str()).concat(digits.as_str()))
    }
}

impl NameGeneratorTrait for NameGenerator {
    /// `name` is a word of the adjective list in title case, then a word of the noun
    /// list, then the digits of a number below the bound.
    open spec fn can_produce(&self, name: Seq<char>) -> bool {
        exists|a: String, n: String, k: nat|
            {
                &&& self.adjective_list().contains(a)
                &&& self.noun_list().contains(n)
                &&& k < NUMBER_BOUND
                &&& name == alias_from(a@, n@, k)
            }
    }

    fn make_random_name(&self, rng: &mut ThreadRng) -> (r: GeneratedName) {
        proof {
            use_type_invariant(self);
        }
        let random_noun = choose_word(&self.nouns, rng).unwrap();
        let random_adjective = choose_word(&self.adjectives, rng).unwrap();
        let random_number = number_below(rng, NUMBER_BOUND);
        proof {
            let i = choose|i: int| 0 <= i < self.adjectives@.len() && self.adjectives@[i] == *random_adjective;
            assert(self.adjectives@[i]@.len() > 0);
        }
        let name = NameGenerator::name_from(random_adjective, random_noun, random_number);
        proof {
            lemma_decimal_not_empty(random_number as nat);
            assert(self.can_produce(name.0@) ) by {
                assert(self.adjective_list().contains(*random_adjective));
                assert(self.noun_list().contains(*random_noun));
            }
        }
        name
    }
}

impl Default for NameGenerator {
    /// A generator over a small built-in vocabulary.
    fn default() -> (r: NameGenerator)
        ensures
            r.adjective_list().len() > 0,
            r.noun_list().len() > 0,
    {
        let adjectives = vec![
            String::from_str("brave"),
            String::from_str("calm"),
            String::from_str("eager"),
            String::from_str("gentle"),
            String::from_str("happy"),
            String::from_str("jolly"),
            String::from_str("lively"),
            String::from_str("merry"),
            String::from_str("proud"),
            String::from_str("quiet"),
            String::from_str("swift"),
            String::from_str("witty"),
        ];
        let nouns = vec![
            String::from_str("badger"),
            String::from_str("falcon"),
            String::from_str("heron"),
            String::from_str("lynx"),
            String::from_str("marmot"),
            String::from_str("otter"),
            String::from_str("panda"),
            String::from_str("quokka"),
            String::from_str("raven"),
            String::from_str("tiger"),
            String::from_str("walrus"),
            String::from_str("zebra"),
        ];
        proof {
            reveal_strlit("brave");
            reveal_strlit("calm");
            reveal_strlit("eager");
            reveal_strlit("gentle");
            reveal_strlit("happy");
            reveal_strlit("jolly");
            reveal_strlit("lively");
            reveal_strlit("merry");
            reveal_strlit("proud");
            reveal_strlit("quiet");
            reveal_strlit("swift");
            reveal_strlit("witty");
            reveal_strlit("badger");
            reveal_strlit("falcon");
            reveal_strlit("heron");
            reveal_strlit("lynx");
            reveal_strlit("marmot");
            reveal_strlit("otter");
            reveal_strlit("panda");
            reveal_strlit("quokka");
            reveal_strlit("raven");
            reveal_strlit("tiger");
            reveal_strlit("walrus");
            reveal_strlit("zebra");
        }
        NameGenerator { adjectives, nouns }
    }
}

} // verus!
