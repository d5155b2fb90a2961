//! The language tag: a closed set of countries with two-letter keys.
use vstd::prelude::*;
use crate::text::{chars_of, lower_of, lowercase};

verus! {

/// A language tag.
#[derive(Clone, Copy, Debug, PartialEq, Eq, Structural)]
pub enum Country {
    UnitedKingdom,
    Poland,
}

/// The canonical two-letter key of a country.
pub open spec fn key_of(c: Country) -> Seq<char> {
    match c {
        Country::UnitedKingdom => seq!['e', 'n'],
        Country::Poland => seq!['p', 'l'],
    }
}

/// The country whose key is exactly `s`, if any.
pub open spec fn country_of_key(s: Seq<char>) -> Option<Country> {
    if s == key_of(Country::UnitedKingdom) {
        Some(Country::UnitedKingdom)
    } else if s == key_of(Country::Poland) {
        Some(Country::Poland)
    } else {
        None
    }
}

/// The country named by the first two characters of a language code, if any.
pub open spec fn country_of_prefix(s: Seq<char>) -> Option<Country> {
    if s.len() >= 2 {
        country_of_key(s.subrange(0, 2))
    } else {
        None
    }
}

/// The first language in `langs`, lower-cased, whose two-letter prefix is a key;
/// the default country when there is none.
pub open spec fn preferred_country(langs: Seq<Seq<char>>) -> Country
    decreases langs.len(),
{
    if langs.len() == 0 {
        Country::UnitedKingdom
    } else {
        match country_of_prefix(lower_of(langs[0])) {
            Some(c) => c,
            None => preferred_country(langs.drop_first()),
        }
    }
}

impl Default for Country {
    fn default() -> (r: Self)
        ensures
            r == Country::UnitedKingdom,
    {
        Country::UnitedKingdom
    }
}

impl Country {
    /// The canonical key: "en" or "pl".
    pub fn key(&self) -> (r: &'static str)
        ensures
            r@ == key_of(*self),
    {
        proof {
            reveal_strlit("en");
            reveal_strlit("pl");
        }
        match self {
            Country::UnitedKingdom => {
                let r = "en";
                assert(r@ =~= key_of(*self));
                r
            },
            Country::Poland => {
                let r = "pl";
                assert(r@ =~= key_of(*self));
                r
            },
        }
    }

    /// The variant's name, as written in the source.
    pub fn name(&self) -> (r: &'static str)
        ensures
            *self == Country::UnitedKingdom ==> r@ == "UnitedKingdom"@,
            *self == Country::Poland ==> r@ == "Poland"@,
    {
        match self {
            Country::UnitedKingdom => "UnitedKingdom",
            Country::Poland => "Poland",
        }
    }

    /// Every country, in declaration order.
    pub fn all() -> (r: Vec<Country>)
        ensures
            r@ == seq![Country::UnitedKingdom, Country::Poland],
    {
        let r = vec![Country::UnitedKingdom, Country::Poland];
        assert(r@ =~= seq![Country::UnitedKingdom, Country::Poland]);
        r
    }

    /// The country whose key is `value`; the value itself when it is no key.
    pub fn try_parse(value: &str) -> (r: Result<Country, &str>)
        ensures
            r == match country_of_key(value@) {
                Some(c) => Ok::<Country, &str>(c),
                None => Err(value),
            },
    {
        let c = chars_of(value);
        if c.len() == 2 && c[0] == 'e' && c[1] == 'n' {
            assert(c@ =~= key_of(Country::UnitedKingdom));
            Ok(Country::UnitedKingdom)
        } else if c.len() == 2 && c[0] == 'p' && c[1] == 'l' {
            assert(c@ =~= key_of(Country::Poland));
            Ok(Country::Poland)
        } else {
            Err(value)
        }
    }

    /// The country whose key is `value`; the value itself when it is no key.
    pub fn try_from_string(value: String) -> (r: Result<Country, String>)
        ensures
            match country_of_key(value@) {
                Some(c) => r == Ok::<Country, String>(c),
                None => r matches Err(e) && e@ == value@,
            },
    {
        match Country::try_parse(value.as_str()) {
            Ok(c) => Ok(c),
            Err(_) => Err(value),
        }
    }

    /// The country of the two-letter prefix of `lang`, lower-cased.
    fn from_language(lang: &String) -> (r: Option<Country>)
        ensures
            r == country_of_prefix(lower_of(lang@)),
    {
        let lower = lowercase(lang.as_str());
        let c = chars_of(lower.as_str());
        if c.len() < 2 {
            return None;
        }
        let two = vec![c[0], c[1]];
        assert(two@ =~= c@.subrange(0, 2));
        if two[0] == 'e' && two[1] == 'n' {
            assert(two@ =~= key_of(Country::UnitedKingdom));
            Some(Country::UnitedKingdom)
        } else if two[0] == 'p' && two[1] == 'l' {
            assert(two@ =~= key_of(Country::Poland));
            Some(Country::Poland)
        } else {
            None
        }
    }

    /// The preferred country among a user agent's languages, in order of
    /// preference: the first whose two-letter prefix is a key, else the default.
    pub fn from_languages(langs: &Vec<String>) -> (r: Country)
        ensures
            r == preferred_country(langs@.map_values(|l: String| l@)),
    {
        let ghost all = langs@.map_values(|l: String| l@);
        let mut i: usize = 0;
        assert(all.subrange(0, all.len() as int) =~= all);
        while i < langs.len()
            invariant
                i <= langs@.len(),
                all == langs@.map_values(|l: String| l@),
                preferred_country(all) == preferred_country(all.subrange(i as int, all.len() as int)),
            decreases langs@.len() - i,
        {
            let ghost rest = all.subrange(i as int, all.len() as int);
            assert(rest[0] == langs@[i as int]@);
            match Country::from_language(&langs[i]) {
                Some(c) => {
                    return c;
                },
                None => {
                    assert(rest.drop_first() =~= all.subrange(i + 1, all.len() as int));
                },
            }
            i += 1;
        }
        Country::UnitedKingdom
    }
}

impl<'a> TryFrom<&'a str> for Country {
    type Error = &'a str;

    fn try_from(value: &'a str) -> (r: Result<Country, &'a str>)
        ensures
            r == match country_of_key(value@) {
                Some(c) => Ok::<Country, &str>(c),
                None => Err(value),
            },
    {
        Country::try_parse(value)
    }
}

impl<'a> vstd::std_specs::convert::TryFromSpecImpl<&'a str> for Country {
    open spec fn obeys_try_from_spec() -> bool {
        true
    }

    open spec fn try_from_spec(v: &'a str) -> Result<Country, &'a str> {
        match country_of_key(v@) {
            Some(c) => Ok(c),
            None => Err(v),
        }
    }
}

/// Parsing the key of any country gives that country back; a string that is
/// no key is refused.
pub proof fn lemma_key_round_trip(c: Country, s: Seq<char>)
    ensures
        country_of_key(key_of(c)) == Some(c),
        (forall|d: Country| s != key_of(d)) ==> country_of_key(s) is None,
{
}

} // verus!
