use vstd::prelude::*;

use crate::database::{resolves_to, LinkModel, NamesRepository};
use crate::errors::AppError;
use crate::name_generator::{GeneratedName, NameGeneratorTrait};
use rand::rngs::ThreadRng;

verus! {

/// The error of `url::Url::parse`, `url::ParseError`, carried through as an opaque value.
#[verifier::external_type_specification]
#[verifier::external_body]
pub struct ExParseError(url::ParseError);

/// The serialization of `s` as an absolute URL, or `None` when `s` is not one, as
/// `url::Url::parse` decides.
pub uninterp spec fn url_serialization(s: Seq<char>) -> Option<Seq<char>>;

/// Relies on `url::Url::parse` and `String::from(Url)`: whether `input` parses as an
/// absolute URL, and if so its serialization; both depend on `input` alone.
#[verifier::external_body]
fn parse_url(input: &str) -> (r: Result<String, url::ParseError>)
    ensures
        match r {
            Ok(u) => url_serialization(input@) == Some(u@),
            Err(_) => url_serialization(input@) is None,
        },
{
    url::Url::parse(input).map(String::from)
}

/// The scheme prefix that inputs without a scheme are given.
pub open spec fn https_prefix() -> Seq<char> {
    seq!['h', 't', 't', 'p', 's', ':', '/', '/']
}

/// `s` begins with `https://`.
pub open spec fn starts_with_https(s: Seq<char>) -> bool {
    s.len() >= 8 && s.subrange(0, 8) == https_prefix()
}

/// `c` is an ASCII letter.
pub open spec fn is_ascii_alpha(c: char) -> bool {
    ('a' <= c && c <= 'z') || ('A' <= c && c <= 'Z')
}

/// `c` may stand in a URL scheme after its first letter.
pub open spec fn is_scheme_char(c: char) -> bool {
    is_ascii_alpha(c) || ('0' <= c && c <= '9') || c == '+' || c == '-' || c == '.'
}

/// `s` begins with a scheme of `k` characters followed by `://`.
pub open spec fn scheme_ends_at(s: Seq<char>, k: int) -> bool {
    &&& 1 <= k && k + 3 <= s.len()
    &&& is_ascii_alpha(s[0])
    &&& forall|i: int| 0 <= i < k ==> is_scheme_char(#[trigger] s[i])
    &&& s[k] == ':' && s[k + 1] == '/' && s[k + 2] == '/'
}

/// `s` names its own scheme.
pub open spec fn has_explicit_scheme(s: Seq<char>) -> bool {
    exists|k: int| scheme_ends_at(s, k)
}

/// The text that is parsed for the input `s`: `s` itself when it is HTTPS, `s` behind
/// the HTTPS prefix when it names no scheme, and nothing when it names another scheme.
pub open spec fn normalized_input(s: Seq<char>) -> Option<Seq<char>> {
    if starts_with_https(s) {
        Some(s)
    } else if has_explicit_scheme(s) {
        None
    } else {
        Some(https_prefix() + s)
    }
}

/// The URL that is stored for the input `s`, or `None` when `s` is refused.
pub open spec fn accepted_url(s: Seq<char>) -> Option<Seq<char>> {
    match normalized_input(s) {
        Some(t) => url_serialization(t),
        None => None,
    }
}

/// `link` is `base` followed by a non-empty alias that `links` maps to the URL accepted
/// for `input`.
pub open spec fn shortened_to(
    base: Seq<char>,
    input: Seq<char>,
    links: Map<Seq<char>, LinkModel>,
    link: Seq<char>,
) -> bool {
    exists|alias: Seq<char>|
        {
            &&& alias.len() > 0
            &&& link == base + alias
            &&& accepted_url(input) is Some
            &&& links.contains_key(alias)
            &&& links[alias].original == accepted_url(input)->Some_0
        }
}

/// A link just made from `u`, an HTTPS URL already in the form that parsing gives
/// back, resolves to `u` itself.
pub proof fn lemma_shortened_link_resolves(
    base: Seq<char>,
    u: Seq<char>,
    links: Map<Seq<char>, LinkModel>,
    link: Seq<char>,
)
    requires
        starts_with_https(u),
        url_serialization(u) == Some(u),
        shortened_to(base, u, links, link),
    ensures
        resolves_to(links, link.skip(base.len() as int)) == Some(u),
{
    let alias = choose|alias: Seq<char>|
        {
            &&& alias.len() > 0
            &&& link == base + alias
            &&& accepted_url(u) is Some
            &&& links.contains_key(alias)
            &&& links[alias].original == accepted_url(u)->Some_0
        };
    assert(link.skip(base.len() as int) =~= alias);
}

/// Input that names no scheme is parsed behind `https://`, and input that names a
/// scheme other than HTTPS is refused.
pub proof fn lemma_scheme_rules(s: Seq<char>)
    ensures
        !has_explicit_scheme(s) ==> accepted_url(s) == url_serialization(https_prefix() + s),
        has_explicit_scheme(s) && !starts_with_https(s) ==> accepted_url(s) is None,
{
    if starts_with_https(s) {
        assert forall|i: int| 0 <= i < 8 implies s[i] == https_prefix()[i] by {
            assert(s.subrange(0, 8)[i] == s[i]);
        }
        assert(scheme_ends_at(s, 5));
    }
}

fn is_ascii_alpha_exec(c: char) -> (r: bool)
    ensures
        r == is_ascii_alpha(c),
{
    ('a' <= c && c <= 'z') || ('A' <= c && c <= 'Z')
}

fn is_scheme_char_exec(c: char) -> (r: bool)
    ensures
        r == is_scheme_char(c),
{
    ('a' <= c && c <= 'z') || ('A' <= c && c <= 'Z') || ('0' <= c && c <= '9') || c == '+' || c
        == '-' || c == '.'
}

/// Whether `s` begins with `https://`.
fn has_https_prefix(s: &str) -> (r: bool)
    ensures
        r == starts_with_https(s@),
{
    let prefix = "https://";
    proof {
        reveal_strlit("https://");
        assert(prefix@ =~= https_prefix());
    }
    let n = s.unicode_len();
    if n < 8 {
        return false;
    }
    let mut i: usize = 0;
    while i < 8
        invariant
            i <= 8 <= n == s@.len(),
            prefix@ == https_prefix(),
            forall|j: int| 0 <= j < i ==> s@[j] == https_prefix()[j],
        decreases 8 - i,
    {
        if s.get_char(i) != prefix.get_char(i) {
            proof {
                assert(s@.subrange(0, 8)[i as int] != https_prefix()[i as int]);
            }
            return false;
        }
        i = i + 1;
    }
    proof {
        assert(s@.subrange(0, 8) =~= https_prefix());
    }
    true
}

/// Whether `s` names its own scheme.
fn names_scheme(s: &str) -> (r: bool)
    ensures
        r == has_explicit_scheme(s@),
{
    let n = s.unicode_len();
    if n == 0 || !is_ascii_alpha_exec(s.get_char(0)) {
        return false;
    }
    let mut k: usize = 1;
    while k < n && is_scheme_char_exec(s.get_char(k))
        invariant
            1 <= k <= n == s@.len(),
            is_ascii_alpha(s@[0]),
            forall|i: int| 0 <= i < k ==> is_scheme_char(#[trigger] s@[i]),
        decreases n - k,
    {
        k = k + 1;
    }
    if n - k >= 3 && s.get_char(k) == ':' && s.get_char(k + 1) == '/' && s.get_char(k + 2) == '/' {
        assert(scheme_ends_at(s@, k as int));
        return true;
    }
    proof {
        assert forall|m: int| !scheme_ends_at(s@, m) by {
            if scheme_ends_at(s@, m) {
                if m < k {
                    assert(is_scheme_char(s@[m]));
                } else if m > k {
                    assert(is_scheme_char(s@[k as int]));
                }
            }
        }
    }
    false
}

/// The text to parse for `input`: `input` itself when it begins with `https://`,
/// `input` behind `https://` when it names no scheme, and `None` when it names another
/// scheme.
pub fn normalize_input(input: &str) -> (r: Option<String>)
    ensures
        match r {
            Some(t) => normalized_input(input@) == Some(t@),
            None => normalized_input(input@) is None,
        },
{
    if has_https_prefix(input) {
        Some(String::from_str(input))
    } else if names_scheme(input) {
        None
    } else {
        let prefix = "https://";
        proof {
            reveal_strlit("https://");
            assert(prefix@ =~= https_prefix());
        }
        Some(String::from_str(prefix).concat(input))
    }
}

/// A shortened link: the service's base URL followed by the alias.
pub struct OutputLink {
    pub link: String,
}

/// What the shortening loop does next.
#[derive(Debug)]
pub enum Step {
    /// Insert the candidate.
    Store,
    /// Draw a new candidate.
    Retry,
    /// Give up: every allowed candidate was taken.
    Exhausted,
    /// The candidate was stored.
    Done,
    /// End with this storage error.
    Fail(AppError),
}

/// The step after the existence check of the `tried`-th of at most `max` candidates: a
/// free candidate is inserted, a taken one is replaced while attempts remain, and a
/// storage error ends the shortening with that error.
pub fn after_check(tried: u32, max: u32, checked: Result<bool, AppError>) -> (r: Step)
    ensures
        checked matches Ok(false) ==> r is Store,
        checked matches Ok(true) ==> if tried < max {
            r is Retry
        } else {
            r is Exhausted
        },
        checked matches Err(e) ==> r == Step::Fail(e),
{
    match checked {
        Ok(false) => Step::Store,
        Ok(true) => if tried < max {
            Step::Retry
        } else {
            Step::Exhausted
        },
        Err(e) => Step::Fail(e),
    }
}

/// The step after inserting the `tried`-th of at most `max` candidates: success ends
/// the shortening, an alias that another writer took first is replaced while attempts
/// remain, and any other storage error ends the shortening with that error.
pub fn after_store(tried: u32, max: u32, stored: Result<(), AppError>) -> (r: Step)
    ensures
        stored is Ok ==> r is Done,
        stored matches Err(AppError::DuplicateAlias) ==> if tried < max {
            r is Retry
        } else {
            r is Exhausted
        },
        stored matches Err(e) ==> !(e is DuplicateAlias) ==> r == Step::Fail(e),
{
    match stored {
        Ok(()) => Step::Done,
        Err(AppError::DuplicateAlias) => if tried < max {
            Step::Retry
        } else {
            Step::Exhausted
        },
        Err(e) => Step::Fail(e),
    }
}

/// How many candidate aliases a shortening tries, unless told otherwise.
pub const DEFAULT_MAX_ATTEMPTS: u32 = 10000;

/// Shortens and resolves links for one base URL with one name generator.
pub struct ShortenService<'a, 'b, B: NameGeneratorTrait> {
    base_url: &'a str,
    generator: &'b B,
    max_attempts: u32,
}

impl<'a, 'b, B: NameGeneratorTrait> ShortenService<'a, 'b, B> {
    /// The base URL that aliases are appended to.
    pub closed spec fn base(&self) -> Seq<char> {
        self.base_url@
    }

    /// The name generator that candidate aliases come from.
    pub closed spec fn names(&self) -> B {
        *self.generator
    }

    /// How many candidate aliases a shortening tries before it gives up.
    pub closed spec fn attempts(&self) -> nat {
        self.max_attempts as nat
    }

    pub fn new(base_url: &'a str, generator: &'b B) -> (r: Self)
        ensures
            r.base() == base_url@,
            r.names() == *generator,
            r.attempts() == DEFAULT_MAX_ATTEMPTS,
    {
        ShortenService { base_url, generator, max_attempts: DEFAULT_MAX_ATTEMPTS }
    }

    /// The same service, trying at most `max_attempts` candidate aliases per shortening.
    pub fn with_max_attempts(self, max_attempts: u32) -> (r: Self)
        ensures
            r.base() == self.base(),
            r.names() == self.names(),
            r.attempts() == max_attempts,
    {
        ShortenService { max_attempts, ..self }
    }

    /// The URL to store for `input_link`: HTTPS input as it is, input without a scheme
    /// behind `https://`, each parsed and serialized; input that names another scheme,
    /// or does not parse, is refused.
    pub fn validate_input(&self, input_link: &str) -> (r: Result<String, AppError>)
        ensures
            r is Ok <==> accepted_url(input_link@) is Some,
            match r {
                Ok(u) => accepted_url(input_link@) == Some(u@),
                Err(e) => e is UserInputError,
            },
    {
        let candidate = match normalize_input(input_link) {
            Some(c) => c,
            None => {
                return Err(
                    AppError::UserInputError(
                        String::from_str("only HTTPS links, or links without a scheme, are accepted"),
                    ),
                );
            },
        };
        match parse_url(candidate.as_str()) {
            Ok(u) => Ok(u),
            Err(_) => Err(AppError::UserInputError(String::from_str("the link is not a valid URL"))),
        }
    }

    /// The shortened link for `generated_name`.
    pub fn to_output_link(&self, generated_name: GeneratedName) -> (r: OutputLink)
        ensures
            r.link@ == self.base() + generated_name.0@,
    {
        OutputLink { link: String::from_str(self.base_url).concat(generated_name.0.as_str()) }
    }

    /// Stores `input` under a fresh alias and returns the shortened link. Candidates
    /// that the store already holds, or that another writer takes first, are replaced
    /// by new ones, up to the service's number of attempts; the steps follow
    /// `after_check` and `after_store`.
    pub fn shorten_name<R: NamesRepository>(
        &self,
        input: &str,
        names_repo: &mut R,
        rng: &mut ThreadRng,
    ) -> (r: Result<OutputLink, AppError>)
        ensures
            accepted_url(input@) is None <==> r matches Err(AppError::UserInputError(_)),
            accepted_url(input@) is Some && self.attempts() == 0 ==> r matches Err(
                AppError::ExhaustedKeyspace,
            ),
            accepted_url(input@) is Some && self.attempts() > 0 && (forall|a: Seq<char>|
                !old(names_repo).links().contains_key(a)) ==> (r is Ok || r matches Err(
                AppError::DatabaseError(_),
            )),
            match r {
                Ok(out) => {
                    &&& shortened_to(self.base(), input@, final(names_repo).links(), out.link@)
                    &&& exists|alias: Seq<char>, t: nat|
                        {
                            &&& self.names().can_produce(alias)
                            &&& out.link@ == self.base() + alias
                            &&& !old(names_repo).links().contains_key(alias)
                            &&& final(names_repo).links() == old(names_repo).links().insert(
                                alias,
                                (LinkModel { original: accepted_url(input@)->Some_0, created_at: t }),
                            )
                        }
                },
                Err(e) => {
                    &&& !(e is DuplicateAlias)
                    &&& final(names_repo).links() == old(names_repo).links()
                },
            },
    {
        let validated_input = match self.validate_input(input) {
            Ok(u) => u,
            Err(e) => {
                return Err(e);
            },
        };
        if self.max_attempts == 0 {
            return Err(AppError::ExhaustedKeyspace);
        }
        let mut tried: u32 = 0;
        loop
            invariant
                accepted_url(input@) == Some(validated_input@),
                tried < self.max_attempts,
                names_repo.links() == old(names_repo).links(),
                (forall|a: Seq<char>| !old(names_repo).links().contains_key(a)) ==> tried == 0,
            decreases self.max_attempts - tried,
        {
            let generated_name = self.generator.make_random_name(rng);
            tried = tried + 1;
            let checked = names_repo.name_exists(&generated_name);
            match after_check(tried, self.max_attempts, checked) {
                Step::Store => {
                    let ghost clock = names_repo.clock();
                    let stored = names_repo.store_name(validated_input.as_str(), &generated_name);
                    match after_store(tried, self.max_attempts, stored) {
                        Step::Done => {
                            let ghost alias = generated_name.0@;
                            let out = self.to_output_link(generated_name);
                            assert(self.names().can_produce(alias));
                            assert(shortened_to(self.base(), input@, names_repo.links(), out.link@));
                            assert(names_repo.links() == old(names_repo).links().insert(
                                alias,
                                (LinkModel { original: validated_input@, created_at: clock }),
                            ));
                            return Ok(out);
                        },
                        Step::Retry => {},
                        Step::Fail(e) => {
                            return Err(e);
                        },
                        _ => {
                            return Err(AppError::ExhaustedKeyspace);
                        },
                    }
                },
                Step::Retry => {},
                Step::Fail(e) => {
                    return Err(e);
                },
                _ => {
                    return Err(AppError::ExhaustedKeyspace);
                },
            }
        }
    }

    /// The URL that `shortened_link` stands for.
    pub fn get_original_name<R: NamesRepository>(
        &self,
        shortened_link: &str,
        names_repo: &mut R,
    ) -> (r: Result<String, AppError>)
        ensures
            match r {
                Ok(u) => resolves_to(old(names_repo).links(), shortened_link@) == Some(u@),
                Err(AppError::NotFoundError) => resolves_to(
                    old(names_repo).links(),
                    shortened_link@,
                ) is None,
                Err(e) => e is DatabaseError,
            },
            final(names_repo).links() == old(names_repo).links(),
    {
        let generated_name = GeneratedName(String::from_str(shortened_link));
        names_repo.retrieve_original_name(&generated_name)
    }
}

} // verus!
