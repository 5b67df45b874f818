//! The tokens of the query language and their textual form.
use vstd::prelude::*;

verus! {

/// The reserved words of the query language.
#[derive(Debug, Clone, Copy, PartialEq, Eq, Structural)]
pub enum Keyword {
    And,
    Or,
    Not,
    In,
    Between,
    Like,
    Regex,
    Is,
    Exists,
    Contains,
    ContainsAny,
    ContainsAll,
    Where,
    Order,
    Skip,
    Limit,
    Returning,
    Asc,
    Desc,
    True,
    False,
    Null,
}

/// The spelling of a keyword.
pub open spec fn keyword_text(k: Keyword) -> Seq<char> {
    match k {
        Keyword::And => seq!['a', 'n', 'd'],
        Keyword::Or => seq!['o', 'r'],
        Keyword::Not => seq!['n', 'o', 't'],
        Keyword::In => seq!['i', 'n'],
        Keyword::Between => seq!['b', 'e', 't', 'w', 'e', 'e', 'n'],
        Keyword::Like => seq!['l', 'i', 'k', 'e'],
        Keyword::Regex => seq!['r', 'e', 'g', 'e', 'x'],
        Keyword::Is => seq!['i', 's'],
        Keyword::Exists => seq!['e', 'x', 'i', 's', 't', 's'],
        Keyword::Contains => seq!['c', 'o', 'n', 't', 'a', 'i', 'n', 's'],
        Keyword::ContainsAny => seq!['c', 'o', 'n', 't', 'a', 'i', 'n', 's', 'A', 'n', 'y'],
        Keyword::ContainsAll => seq!['c', 'o', 'n', 't', 'a', 'i', 'n', 's', 'A', 'l', 'l'],
        Keyword::Where => seq!['w', 'h', 'e', 'r', 'e'],
        Keyword::Order => seq!['o', 'r', 'd', 'e', 'r'],
        Keyword::Skip => seq!['s', 'k', 'i', 'p'],
        Keyword::Limit => seq!['l', 'i', 'm', 'i', 't'],
        Keyword::Returning => seq!['r', 'e', 't', 'u', 'r', 'n', 'i', 'n', 'g'],
        Keyword::Asc => seq!['a', 's', 'c'],
        Keyword::Desc => seq!['d', 'e', 's', 'c'],
        Keyword::True => seq!['t', 'r', 'u', 'e'],
        Keyword::False => seq!['f', 'a', 'l', 's', 'e'],
        Keyword::Null => seq!['n', 'u', 'l', 'l'],
    }
}

/// The keyword that a word spells, if it spells one. Matching is
/// case-sensitive.
pub open spec fn keyword_of(w: Seq<char>) -> Option<Keyword> {
    if w == keyword_text(Keyword::And) {
        Some(Keyword::And)
    } else if w == keyword_text(Keyword::Or) {
        Some(Keyword::Or)
    } else if w == keyword_text(Keyword::Not) {
        Some(Keyword::Not)
    } else if w == keyword_text(Keyword::In) {
        Some(Keyword::In)
    } else if w == keyword_text(Keyword::Between) {
        Some(Keyword::Between)
    } else if w == keyword_text(Keyword::Like) {
        Some(Keyword::Like)
    } else if w == keyword_text(Keyword::Regex) {
        Some(Keyword::Regex)
    } else if w == keyword_text(Keyword::Is) {
        Some(Keyword::Is)
    } else if w == keyword_text(Keyword::Exists) {
        Some(Keyword::Exists)
    } else if w == keyword_text(Keyword::Contains) {
        Some(Keyword::Contains)
    } else if w == keyword_text(Keyword::ContainsAny) {
        Some(Keyword::ContainsAny)
    } else if w == keyword_text(Keyword::ContainsAll) {
        Some(Keyword::ContainsAll)
    } else if w == keyword_text(Keyword::Where) {
        Some(Keyword::Where)
    } else if w == keyword_text(Keyword::Order) {
        Some(Keyword::Order)
    } else if w == keyword_text(Keyword::Skip) {
        Some(Keyword::Skip)
    } else if w == keyword_text(Keyword::Limit) {
        Some(Keyword::Limit)
    } else if w == keyword_text(Keyword::Returning) {
        Some(Keyword::Returning)
    } else if w == keyword_text(Keyword::Asc) {
        Some(Keyword::Asc)
    } else if w == keyword_text(Keyword::Desc) {
        Some(Keyword::Desc)
    } else if w == keyword_text(Keyword::True) {
        Some(Keyword::True)
    } else if w == keyword_text(Keyword::False) {
        Some(Keyword::False)
    } else if w == keyword_text(Keyword::Null) {
        Some(Keyword::Null)
    } else {
        None
    }
}

impl Keyword {
    /// The keyword's spelling, as characters.
    pub fn text_chars(self) -> (r: Vec<char>)
        ensures
            r@ == keyword_text(self),
    {
        match self {
            Keyword::And => vec!['a', 'n', 'd'],
            Keyword::Or => vec!['o', 'r'],
            Keyword::Not => vec!['n', 'o', 't'],
            Keyword::In => vec!['i', 'n'],
            Keyword::Between => vec!['b', 'e', 't', 'w', 'e', 'e', 'n'],
            Keyword::Like => vec!['l', 'i', 'k', 'e'],
            Keyword::Regex => vec!['r', 'e', 'g', 'e', 'x'],
            Keyword::Is => vec!['i', 's'],
            Keyword::Exists => vec!['e', 'x', 'i', 's', 't', 's'],
            Keyword::Contains => vec!['c', 'o', 'n', 't', 'a', 'i', 'n', 's'],
            Keyword::ContainsAny => vec!['c', 'o', 'n', 't', 'a', 'i', 'n', 's', 'A', 'n', 'y'],
            Keyword::ContainsAll => vec!['c', 'o', 'n', 't', 'a', 'i', 'n', 's', 'A', 'l', 'l'],
            Keyword::Where => vec!['w', 'h', 'e', 'r', 'e'],
            Keyword::Order => vec!['o', 'r', 'd', 'e', 'r'],
            Keyword::Skip => vec!['s', 'k', 'i', 'p'],
            Keyword::Limit => vec!['l', 'i', 'm', 'i', 't'],
            Keyword::Returning => vec!['r', 'e', 't', 'u', 'r', 'n', 'i', 'n', 'g'],
            Keyword::Asc => vec!['a', 's', 'c'],
            Keyword::Desc => vec!['d', 'e', 's', 'c'],
            Keyword::True => vec!['t', 'r', 'u', 'e'],
            Keyword::False => vec!['f', 'a', 'l', 's', 'e'],
            Keyword::Null => vec!['n', 'u', 'l', 'l'],
        }
    }

    /// The keyword spelled by `w`, if any.
    pub fn from_chars(w: &[char]) -> (r: Option<Keyword>)
        ensures
            r == keyword_of(w@),
    {
        if chars_equal(w, &Keyword::And.text_chars()) {
            return Some(Keyword::And);
        }
        if chars_equal(w, &Keyword::Or.text_chars()) {
            return Some(Keyword::Or);
        }
        if chars_equal(w, &Keyword::Not.text_chars()) {
            return Some(Keyword::Not);
        }
        if chars_equal(w, &Keyword::In.text_chars()) {
            return Some(Keyword::In);
        }
        if chars_equal(w, &Keyword::Between.text_chars()) {
            return Some(Keyword::Between);
        }
        if chars_equal(w, &Keyword::Like.text_chars()) {
            return Some(Keyword::Like);
        }
        if chars_equal(w, &Keyword::Regex.text_chars()) {
            return Some(Keyword::Regex);
        }
        if chars_equal(w, &Keyword::Is.text_chars()) {
            return Some(Keyword::Is);
        }
        if chars_equal(w, &Keyword::Exists.text_chars()) {
            return Some(Keyword::Exists);
        }
        if chars_equal(w, &Keyword::Contains.text_chars()) {
            return Some(Keyword::Contains);
        }
        if chars_equal(w, &Keyword::ContainsAny.text_chars()) {
            return Some(Keyword::ContainsAny);
        }
        if chars_equal(w, &Keyword::ContainsAll.text_chars()) {
            return Some(Keyword::ContainsAll);
        }
        if chars_equal(w, &Keyword::Where.text_chars()) {
            return Some(Keyword::Where);
        }
        if chars_equal(w, &Keyword::Order.text_chars()) {
            return Some(Keyword::Order);
        }
        if chars_equal(w, &Keyword::Skip.text_chars()) {
            return Some(Keyword::Skip);
        }
        if chars_equal(w, &Keyword::Limit.text_chars()) {
            return Some(Keyword::Limit);
        }
        if chars_equal(w, &Keyword::Returning.text_chars()) {
            return Some(Keyword::Returning);
        }
        if chars_equal(w, &Keyword::Asc.text_chars()) {
            return Some(Keyword::Asc);
        }
        if chars_equal(w, &Keyword::Desc.text_chars()) {
            return Some(Keyword::Desc);
        }
        if chars_equal(w, &Keyword::True.text_chars()) {
            return Some(Keyword::True);
        }
        if chars_equal(w, &Keyword::False.text_chars()) {
            return Some(Keyword::False);
        }
        if chars_equal(w, &Keyword::Null.text_chars()) {
            return Some(Keyword::Null);
        }
        None
    }
}

/// Each keyword is recognised from its own spelling.
pub proof fn lemma_keyword_of_text(k: Keyword)
    ensures
        keyword_of(keyword_text(k)) == Some(k),
{
    match k {
        Keyword::And => {},
        Keyword::Or => {
            assert(keyword_text(Keyword::Or).len() != keyword_text(Keyword::And).len());
        },
        Keyword::Not => {
            assert(keyword_text(Keyword::Not)[0] != keyword_text(Keyword::And)[0]);
            assert(keyword_text(Keyword::Not).len() != keyword_text(Keyword::Or).len());
        },
        Keyword::In => {
            assert(keyword_text(Keyword::In).len() != keyword_text(Keyword::And).len());
            assert(keyword_text(Keyword::In)[0] != keyword_text(Keyword::Or)[0]);
            assert(keyword_text(Keyword::In).len() != keyword_text(Keyword::Not).len());
        },
        Keyword::Between => {
            assert(keyword_text(Keyword::Between).len() != keyword_text(Keyword::And).len());
            assert(keyword_text(Keyword::Between).len() != keyword_text(Keyword::Or).len());
            assert(keyword_text(Keyword::Between).len() != keyword_text(Keyword::Not).len());
            assert(keyword_text(Keyword::Between).len() != keyword_text(Keyword::In).len());
        },
        Keyword::Like => {
            assert(keyword_text(Keyword::Like).len() != keyword_text(Keyword::And).len());
            assert(keyword_text(Keyword::Like).len() != keyword_text(Keyword::Or).len());
            assert(keyword_text(Keyword::Like).len() != keyword_text(Keyword::Not).len());
            assert(keyword_text(Keyword::Like).len() != keyword_text(Keyword::In).len());
            assert(keyword_text(Keyword::Like).len() != keyword_text(Keyword::Between).len());
        },
        Keyword::Regex => {
            assert(keyword_text(Keyword::Regex).len() != keyword_text(Keyword::And).len());
            assert(keyword_text(Keyword::Regex).len() != keyword_text(Keyword::Or).len());
            assert(keyword_text(Keyword::Regex).len() != keyword_text(Keyword::Not).len());
            assert(keyword_text(Keyword::Regex).len() != keyword_text(Keyword::In).len());
            assert(keyword_text(Keyword::Regex).len() != keyword_text(Keyword::Between).len());
            assert(keyword_text(Keyword::Regex).len() != keyword_text(Keyword::Like).len());
        },
        Keyword::Is => {
            assert(keyword_text(Keyword::Is).len() != keyword_text(Keyword::And).len());
            assert(keyword_text(Keyword::Is)[0] != keyword_text(Keyword::Or)[0]);
            assert(keyword_text(Keyword::Is).len() != keyword_text(Keyword::Not).len());
            assert(keyword_text(Keyword::Is)[1] != keyword_text(Keyword::In)[1]);
            assert(keyword_text(Keyword::Is).len() != keyword_text(Keyword::Between).len());
            assert(keyword_text(Keyword::Is).len() != keyword_text(Keyword::Like).len());
            assert(keyword_text(Keyword::Is).len() != keyword_text(Keyword::Regex).len());
        },
        Keyword::Exists => {
            assert(keyword_text(Keyword::Exists).len() != keyword_text(Keyword::And).len());
            assert(keyword_text(Keyword::Exists).len() != keyword_text(Keyword::Or).len());
            assert(keyword_text(Keyword::Exists).len() != keyword_text(Keyword::Not).len());
            assert(keyword_text(Keyword::Exists).len() != keyword_text(Keyword::In).len());
            assert(keyword_text(Keyword::Exists).len() != keyword_text(Keyword::Between).len());
            assert(keyword_text(Keyword::Exists).len() != keyword_text(Keyword::Like).len());
            assert(keyword_text(Keyword::Exists).len() != keyword_text(Keyword::Regex).len());
            assert(keyword_text(Keyword::Exists).len() != keyword_text(Keyword::Is).len());
        },
        Keyword::Contains => {
            assert(keyword_text(Keyword::Contains).len() != keyword_text(Keyword::And).len());
            assert(keyword_text(Keyword::Contains).len() != keyword_text(Keyword::Or).len());
            assert(keyword_text(Keyword::Contains).len() != keyword_text(Keyword::Not).len());
            assert(keyword_text(Keyword::Contains).len() != keyword_text(Keyword::In).len());
            assert(keyword_text(Keyword::Contains).len() != keyword_text(Keyword::Between).len());
            assert(keyword_text(Keyword::Contains).len() != keyword_text(Keyword::Like).len());
            assert(keyword_text(Keyword::Contains).len() != keyword_text(Keyword::Regex).len());
            assert(keyword_text(Keyword::Contains).len() != keyword_text(Keyword::Is).len());
            assert(keyword_text(Keyword::Contains).len() != keyword_text(Keyword::Exists).len());
        },
        Keyword::ContainsAny => {
            assert(keyword_text(Keyword::ContainsAny).len() != keyword_text(Keyword::And).len());
            assert(keyword_text(Keyword::ContainsAny).len() != keyword_text(Keyword::Or).len());
            assert(keyword_text(Keyword::ContainsAny).len() != keyword_text(Keyword::Not).len());
            assert(keyword_text(Keyword::ContainsAny).len() != keyword_text(Keyword::In).len());
            assert(keyword_text(Keyword::ContainsAny).len() != keyword_text(Keyword::Between).len());
            assert(keyword_text(Keyword::ContainsAny).len() != keyword_text(Keyword::Like).len());
            assert(keyword_text(Keyword::ContainsAny).len() != keyword_text(Keyword::Regex).len());
            assert(keyword_text(Keyword::ContainsAny).len() != keyword_text(Keyword::Is).len());
            assert(keyword_text(Keyword::ContainsAny).len() != keyword_text(Keyword::Exists).len());
            assert(keyword_text(Keyword::ContainsAny).len() != keyword_text(Keyword::Contains).len());
        },
        Keyword::ContainsAll => {
            assert(keyword_text(Keyword::ContainsAll).len() != keyword_text(Keyword::And).len());
            assert(keyword_text(Keyword::ContainsAll).len() != keyword_text(Keyword::Or).len());
            assert(keyword_text(Keyword::ContainsAll).len() != keyword_text(Keyword::Not).len());
            assert(keyword_text(Keyword::ContainsAll).len() != keyword_text(Keyword::In).len());
            assert(keyword_text(Keyword::ContainsAll).len() != keyword_text(Keyword::Between).len());
            assert(keyword_text(Keyword::ContainsAll).len() != keyword_text(Keyword::Like).len());
            assert(keyword_text(Keyword::ContainsAll).len() != keyword_text(Keyword::Regex).len());
            assert(keyword_text(Keyword::ContainsAll).len() != keyword_text(Keyword::Is).len());
            assert(keyword_text(Keyword::ContainsAll).len() != keyword_text(Keyword::Exists).len());
            assert(keyword_text(Keyword::ContainsAll).len() != keyword_text(Keyword::Contains).len());
            assert(keyword_text(Keyword::ContainsAll)[9] != keyword_text(Keyword::ContainsAny)[9]);
        },
        Keyword::Where => {
            assert(keyword_text(Keyword::Where).len() != keyword_text(Keyword::And).len());
            assert(keyword_text(Keyword::Where).len() != keyword_text(Keyword::Or).len());
            assert(keyword_text(Keyword::Where).len() != keyword_text(Keyword::Not).len());
            assert(keyword_text(Keyword::Where).len() != keyword_text(Keyword::In).len());
            assert(keyword_text(Keyword::Where).len() != keyword_text(Keyword::Between).len());
            assert(keyword_text(Keyword::Where).len() != keyword_text(Keyword::Like).len());
            assert(keyword_text(Keyword::Where)[0] != keyword_text(Keyword::Regex)[0]);
            assert(keyword_text(Keyword::Where).len() != keyword_text(Keyword::Is).len());
            assert(keyword_text(Keyword::Where).len() != keyword_text(Keyword::Exists).len());
            assert(keyword_text(Keyword::Where).len() != keyword_text(Keyword::Contains).len());
            assert(keyword_text(Keyword::Where).len() != keyword_text(Keyword::ContainsAny).len());
            assert(keyword_text(Keyword::Where).len() != keyword_text(Keyword::ContainsAll).len());
        },
        Keyword::Order => {
            assert(keyword_text(Keyword::Order).len() != keyword_text(Keyword::And).len());
            assert(keyword_text(Keyword::Order).len() != keyword_text(Keyword::Or).len());
            assert(keyword_text(Keyword::Order).len() != keyword_text(Keyword::Not).len());
            assert(keyword_text(Keyword::Order).len() != keyword_text(Keyword::In).len());
            assert(keyword_text(Keyword::Order).len() != keyword_text(Keyword::Between).len());
            assert(keyword_text(Keyword::Order).len() != keyword_text(Keyword::Like).len());
            assert(keyword_text(Keyword::Order)[0] != keyword_text(Keyword::Regex)[0]);
            assert(keyword_text(Keyword::Order).len() != keyword_text(Keyword::Is).len());
            assert(keyword_text(Keyword::Order).len() != keyword_text(Keyword::Exists).len());
            assert(keyword_text(Keyword::Order).len() != keyword_text(Keyword::Contains).len());
            assert(keyword_text(Keyword::Order).len() != keyword_text(Keyword::ContainsAny).len());
            assert(keyword_text(Keyword::Order).len() != keyword_text(Keyword::ContainsAll).len());
            assert(keyword_text(Keyword::Order)[0] != keyword_text(Keyword::Where)[0]);
        },
        Keyword::Skip => {
            assert(keyword_text(Keyword::Skip).len() != keyword_text(Keyword::And).len());
            assert(keyword_text(Keyword::Skip).len() != keyword_text(Keyword::Or).len());
            assert(keyword_text(Keyword::Skip).len() != keyword_text(Keyword::Not).len());
            assert(keyword_text(Keyword::Skip).len() != keyword_text(Keyword::In).len());
            assert(keyword_text(Keyword::Skip).len() != keyword_text(Keyword::Between).len());
            assert(keyword_text(Keyword::Skip)[0] != keyword_text(Keyword::Like)[0]);
            assert(keyword_text(Keyword::Skip).len() != keyword_text(Keyword::Regex).len());
            assert(keyword_text(Keyword::Skip).len() != keyword_text(Keyword::Is).len());
            assert(keyword_text(Keyword::Skip).len() != keyword_text(Keyword::Exists).len());
            assert(keyword_text(Keyword::Skip).len() != keyword_text(Keyword::Contains).len());
            assert(keyword_text(Keyword::Skip).len() != keyword_text(Keyword::ContainsAny).len());
            assert(keyword_text(Keyword::Skip).len() != keyword_text(Keyword::ContainsAll).len());
            assert(keyword_text(Keyword::Skip).len() != keyword_text(Keyword::Where).len());
            assert(keyword_text(Keyword::Skip).len() != keyword_text(Keyword::Order).len());
        },
        Keyword::Limit => {
            assert(keyword_text(Keyword::Limit).len() != keyword_text(Keyword::And).len());
            assert(keyword_text(Keyword::Limit).len() != keyword_text(Keyword::Or).len());
            assert(keyword_text(Keyword::Limit).len() != keyword_text(Keyword::Not).len());
            assert(keyword_text(Keyword::Limit).len() != keyword_text(Keyword::In).len());
            assert(keyword_text(Keyword::Limit).len() != keyword_text(Keyword::Between).len());
            assert(keyword_text(Keyword::Limit).len() != keyword_text(Keyword::Like).len());
            assert(keyword_text(Keyword::Limit)[0] != keyword_text(Keyword::Regex)[0]);
            assert(keyword_text(Keyword::Limit).len() != keyword_text(Keyword::Is).len());
            assert(keyword_text(Keyword::Limit).len() != keyword_text(Keyword::Exists).len());
            assert(keyword_text(Keyword::Limit).len() != keyword_text(Keyword::Contains).len());
            assert(keyword_text(Keyword::Limit).len() != keyword_text(Keyword::ContainsAny).len());
            assert(keyword_text(Keyword::Limit).len() != keyword_text(Keyword::ContainsAll).len());
            assert(keyword_text(Keyword::Limit)[0] != keyword_text(Keyword::Where)[0]);
            assert(keyword_text(Keyword::Limit)[0] != keyword_text(Keyword::Order)[0]);
            assert(keyword_text(Keyword::Limit).len() != keyword_text(Keyword::Skip).len());
        },
        Keyword::Returning => {
            assert(keyword_text(Keyword::Returning).len() != keyword_text(Keyword::And).len());
            assert(keyword_text(Keyword::Returning).len() != keyword_text(Keyword::Or).len());
            assert(keyword_text(Keyword::Returning).len() != keyword_text(Keyword::Not).len());
            assert(keyword_text(Keyword::Returning).len() != keyword_text(Keyword::In).len());
            assert(keyword_text(Keyword::Returning).len() != keyword_text(Keyword::Between).len());
            assert(keyword_text(Keyword::Returning).len() != keyword_text(Keyword::Like).len());
            assert(keyword_text(Keyword::Returning).len() != keyword_text(Keyword::Regex).len());
            assert(keyword_text(Keyword::Returning).len() != keyword_text(Keyword::Is).len());
            assert(keyword_text(Keyword::Returning).len() != keyword_text(Keyword::Exists).len());
            assert(keyword_text(Keyword::Returning).len() != keyword_text(Keyword::Contains).len());
            assert(keyword_text(Keyword::Returning).len() != keyword_text(Keyword::ContainsAny).len());
            assert(keyword_text(Keyword::Returning).len() != keyword_text(Keyword::ContainsAll).len());
            assert(keyword_text(Keyword::Returning).len() != keyword_text(Keyword::Where).len());
            assert(keyword_text(Keyword::Returning).len() != keyword_text(Keyword::Order).len());
            assert(keyword_text(Keyword::Returning).len() != keyword_text(Keyword::Skip).len());
            assert(keyword_text(Keyword::Returning).len() != keyword_text(Keyword::Limit).len());
        },
        Keyword::Asc => {
            assert(keyword_text(Keyword::Asc)[1] != keyword_text(Keyword::And)[1]);
            assert(keyword_text(Keyword::Asc).len() != keyword_text(Keyword::Or).len());
            assert(keyword_text(Keyword::Asc)[0] != keyword_text(Keyword::Not)[0]);
            assert(keyword_text(Keyword::Asc).len() != keyword_text(Keyword::In).len());
            assert(keyword_text(Keyword::Asc).len() != keyword_text(Keyword::Between).len());
            assert(keyword_text(Keyword::Asc).len() != keyword_text(Keyword::Like).len());
            assert(keyword_text(Keyword::Asc).len() != keyword_text(Keyword::Regex).len());
            assert(keyword_text(Keyword::Asc).len() != keyword_text(Keyword::Is).len());
            assert(keyword_text(Keyword::Asc).len() != keyword_text(Keyword::Exists).len());
            assert(keyword_text(Keyword::Asc).len() != keyword_text(Keyword::Contains).len());
            assert(keyword_text(Keyword::Asc).len() != keyword_text(Keyword::ContainsAny).len());
            assert(keyword_text(Keyword::Asc).len() != keyword_text(Keyword::ContainsAll).len());
            assert(keyword_text(Keyword::Asc).len() != keyword_text(Keyword::Where).len());
            assert(keyword_text(Keyword::Asc).len() != keyword_text(Keyword::Order).len());
            assert(keyword_text(Keyword::Asc).len() != keyword_text(Keyword::Skip).len());
            assert(keyword_text(Keyword::Asc).len() != keyword_text(Keyword::Limit).len());
            assert(keyword_text(Keyword::Asc).len() != keyword_text(Keyword::Returning).len());
        },
        Keyword::Desc => {
            assert(keyword_text(Keyword::Desc).len() != keyword_text(Keyword::And).len());
            assert(keyword_text(Keyword::Desc).len() != keyword_text(Keyword::Or).len());
            assert(keyword_text(Keyword::Desc).len() != keyword_text(Keyword::Not).len());
            assert(keyword_text(Keyword::Desc).len() != keyword_text(Keyword::In).len());
            assert(keyword_text(Keyword::Desc).len() != keyword_text(Keyword::Between).len());
            assert(keyword_text(Keyword::Desc)[0] != keyword_text(Keyword::Like)[0]);
            assert(keyword_text(Keyword::Desc).len() != keyword_text(Keyword::Regex).len());
            assert(keyword_text(Keyword::Desc).len() != keyword_text(Keyword::Is).len());
            assert(keyword_text(Keyword::Desc).len() != keyword_text(Keyword::Exists).len());
            assert(keyword_text(Keyword::Desc).len() != keyword_text(Keyword::Contains).len());
            assert(keyword_text(Keyword::Desc).len() != keyword_text(Keyword::ContainsAny).len());
            assert(keyword_text(Keyword::Desc).len() != keyword_text(Keyword::ContainsAll).len());
            assert(keyword_text(Keyword::Desc).len() != keyword_text(Keyword::Where).len());
            assert(keyword_text(Keyword::Desc).len() != keyword_text(Keyword::Order).len());
            assert(keyword_text(Keyword::Desc)[0] != keyword_text(Keyword::Skip)[0]);
            assert(keyword_text(Keyword::Desc).len() != keyword_text(Keyword::Limit).len());
            assert(keyword_text(Keyword::Desc).len() != keyword_text(Keyword::Returning).len());
            assert(keyword_text(Keyword::Desc).len() != keyword_text(Keyword::Asc).len());
        },
        Keyword::True => {
            assert(keyword_text(Keyword::True).len() != keyword_text(Keyword::And).len());
            assert(keyword_text(Keyword::True).len() != keyword_text(Keyword::Or).len());
            assert(keyword_text(Keyword::True).len() != keyword_text(Keyword::Not).len());
            assert(keyword_text(Keyword::True).len() != keyword_text(Keyword::In).len());
            assert(keyword_text(Keyword::True).len() != keyword_text(Keyword::Between).len());
            assert(keyword_text(Keyword::True)[0] != keyword_text(Keyword::Like)[0]);
            assert(keyword_text(Keyword::True).len() != keyword_text(Keyword::Regex).len());
            assert(keyword_text(Keyword::True).len() != keyword_text(Keyword::Is).len());
            assert(keyword_text(Keyword::True).len() != keyword_text(Keyword::Exists).len());
            assert(keyword_text(Keyword::True).len() != keyword_text(Keyword::Contains).len());
            assert(keyword_text(Keyword::True).len() != keyword_text(Keyword::ContainsAny).len());
            assert(keyword_text(Keyword::True).len() != keyword_text(Keyword::ContainsAll).len());
            assert(keyword_text(Keyword::True).len() != keyword_text(Keyword::Where).len());
            assert(keyword_text(Keyword::True).len() != keyword_text(Keyword::Order).len());
            assert(keyword_text(Keyword::True)[0] != keyword_text(Keyword::Skip)[0]);
            assert(keyword_text(Keyword::True).len() != keyword_text(Keyword::Limit).len());
            assert(keyword_text(Keyword::True).len() != keyword_text(Keyword::Returning).len());
            assert(keyword_text(Keyword::True).len() != keyword_text(Keyword::Asc).len());
            assert(keyword_text(Keyword::True)[0] != keyword_text(Keyword::Desc)[0]);
        },
        Keyword::False => {
            assert(keyword_text(Keyword::False).len() != keyword_text(Keyword::And).len());
            assert(keyword_text(Keyword::False).len() != keyword_text(Keyword::Or).len());
            assert(keyword_text(Keyword::False).len() != keyword_text(Keyword::Not).len());
            assert(keyword_text(Keyword::False).len() != keyword_text(Keyword::In).len());
            assert(keyword_text(Keyword::False).len() != keyword_text(Keyword::Between).len());
            assert(keyword_text(Keyword::False).len() != keyword_text(Keyword::Like).len());
            assert(keyword_text(Keyword::False)[0] != keyword_text(Keyword::Regex)[0]);
            assert(keyword_text(Keyword::False).len() != keyword_text(Keyword::Is).len());
            assert(keyword_text(Keyword::False).len() != keyword_text(Keyword::Exists).len());
            assert(keyword_text(Keyword::False).len() != keyword_text(Keyword::Contains).len());
            assert(keyword_text(Keyword::False).len() != keyword_text(Keyword::ContainsAny).len());
            assert(keyword_text(Keyword::False).len() != keyword_text(Keyword::ContainsAll).len());
            assert(keyword_text(Keyword::False)[0] != keyword_text(Keyword::Where)[0]);
            assert(keyword_text(Keyword::False)[0] != keyword_text(Keyword::Order)[0]);
            assert(keyword_text(Keyword::False).len() != keyword_text(Keyword::Skip).len());
            assert(keyword_text(Keyword::False)[0] != keyword_text(Keyword::Limit)[0]);
            assert(keyword_text(Keyword::False).len() != keyword_text(Keyword::Returning).len());
            assert(keyword_text(Keyword::False).len() != keyword_text(Keyword::Asc).len());
            assert(keyword_text(Keyword::False).len() != keyword_text(Keyword::Desc).len());
            assert(keyword_text(Keyword::False).len() != keyword_text(Keyword::True).len());
        },
        Keyword::Null => {
            assert(keyword_text(Keyword::Null).len() != keyword_text(Keyword::And).len());
            assert(keyword_text(Keyword::Null).len() != keyword_text(Keyword::Or).len());
            assert(keyword_text(Keyword::Null).len() != keyword_text(Keyword::Not).len());
            assert(keyword_text(Keyword::Null).len() != keyword_text(Keyword::In).len());
            assert(keyword_text(Keyword::Null).len() != keyword_text(Keyword::Between).len());
            assert(keyword_text(Keyword::Null)[0] != keyword_text(Keyword::Like)[0]);
            assert(keyword_text(Keyword::Null).len() != keyword_text(Keyword::Regex).len());
            assert(keyword_text(Keyword::Null).len() != keyword_text(Keyword::Is).len());
            assert(keyword_text(Keyword::Null).len() != keyword_text(Keyword::Exists).len());
            assert(keyword_text(Keyword::Null).len() != keyword_text(Keyword::Contains).len());
            assert(keyword_text(Keyword::Null).len() != keyword_text(Keyword::ContainsAny).len());
            assert(keyword_text(Keyword::Null).len() != keyword_text(Keyword::ContainsAll).len());
            assert(keyword_text(Keyword::Null).len() != keyword_text(Keyword::Where).len());
            assert(keyword_text(Keyword::Null).len() != keyword_text(Keyword::Order).len());
            assert(keyword_text(Keyword::Null)[0] != keyword_text(Keyword::Skip)[0]);
            assert(keyword_text(Keyword::Null).len() != keyword_text(Keyword::Limit).len());
            assert(keyword_text(Keyword::Null).len() != keyword_text(Keyword::Returning).len());
            assert(keyword_text(Keyword::Null).len() != keyword_text(Keyword::Asc).len());
            assert(keyword_text(Keyword::Null)[0] != keyword_text(Keyword::Desc)[0]);
            assert(keyword_text(Keyword::Null)[0] != keyword_text(Keyword::True)[0]);
            assert(keyword_text(Keyword::Null).len() != keyword_text(Keyword::False).len());
        },
    }
}

/// A token of the query language.
#[derive(Debug, Clone, PartialEq)]
pub enum Token {
    Number(String),
    String(String),
    Ident(String),
    Keyword(Keyword),
    Variable(String),
    ParentRef(String),
    GrandparentRef(String),
    Equal,
    NotEqual,
    GreaterThan,
    GreaterThanOrEqual,
    LessThan,
    LessThanOrEqual,
    Plus,
    Minus,
    Asterisk,
    Slash,
    Percent,
    ColonColon,
    Colon,
    OpenParen,
    CloseParen,
    OpenBrace,
    CloseBrace,
    OpenBracket,
    CloseBracket,
    Comma,
    Dot,
}

/// A token as a mathematical value: its payload as a character sequence.
pub enum TokenView {
    Number(Seq<char>),
    String(Seq<char>),
    Ident(Seq<char>),
    Keyword(Keyword),
    Variable(Seq<char>),
    ParentRef(Seq<char>),
    GrandparentRef(Seq<char>),
    Equal,
    NotEqual,
    GreaterThan,
    GreaterThanOrEqual,
    LessThan,
    LessThanOrEqual,
    Plus,
    Minus,
    Asterisk,
    Slash,
    Percent,
    ColonColon,
    Colon,
    OpenParen,
    CloseParen,
    OpenBrace,
    CloseBrace,
    OpenBracket,
    CloseBracket,
    Comma,
    Dot,
}

impl View for Token {
    type V = TokenView;

    open spec fn view(&self) -> TokenView {
        match self {
            Token::Number(s) => TokenView::Number(s@),
            Token::String(s) => TokenView::String(s@),
            Token::Ident(s) => TokenView::Ident(s@),
            Token::Keyword(k) => TokenView::Keyword(*k),
            Token::Variable(s) => TokenView::Variable(s@),
            Token::ParentRef(s) => TokenView::ParentRef(s@),
            Token::GrandparentRef(s) => TokenView::GrandparentRef(s@),
            Token::Equal => TokenView::Equal,
            Token::NotEqual => TokenView::NotEqual,
            Token::GreaterThan => TokenView::GreaterThan,
            Token::GreaterThanOrEqual => TokenView::GreaterThanOrEqual,
            Token::LessThan => TokenView::LessThan,
            Token::LessThanOrEqual => TokenView::LessThanOrEqual,
            Token::Plus => TokenView::Plus,
            Token::Minus => TokenView::Minus,
            Token::Asterisk => TokenView::Asterisk,
            Token::Slash => TokenView::Slash,
            Token::Percent => TokenView::Percent,
            Token::ColonColon => TokenView::ColonColon,
            Token::Colon => TokenView::Colon,
            Token::OpenParen => TokenView::OpenParen,
            Token::CloseParen => TokenView::CloseParen,
            Token::OpenBrace => TokenView::OpenBrace,
            Token::CloseBrace => TokenView::CloseBrace,
            Token::OpenBracket => TokenView::OpenBracket,
            Token::CloseBracket => TokenView::CloseBracket,
            Token::Comma => TokenView::Comma,
            Token::Dot => TokenView::Dot,
        }
    }
}

/// The views of a sequence of tokens.
pub open spec fn views(v: Seq<Token>) -> Seq<TokenView> {
    v.map_values(|t: Token| t@)
}

/// The text of a fixed token (punctuation, operator or keyword); `None` for
/// a token that carries a payload.
pub open spec fn fixed_text(t: TokenView) -> Option<Seq<char>> {
    match t {
        TokenView::Keyword(k) => Some(keyword_text(k)),
        TokenView::Equal => Some(seq!['=']),
        TokenView::NotEqual => Some(seq!['!', '=']),
        TokenView::GreaterThan => Some(seq!['>']),
        TokenView::GreaterThanOrEqual => Some(seq!['>', '=']),
        TokenView::LessThan => Some(seq!['<']),
        TokenView::LessThanOrEqual => Some(seq!['<', '=']),
        TokenView::Plus => Some(seq!['+']),
        TokenView::Minus => Some(seq!['-']),
        TokenView::Asterisk => Some(seq!['*']),
        TokenView::Slash => Some(seq!['/']),
        TokenView::Percent => Some(seq!['%']),
        TokenView::ColonColon => Some(seq![':', ':']),
        TokenView::Colon => Some(seq![':']),
        TokenView::OpenParen => Some(seq!['(']),
        TokenView::CloseParen => Some(seq![')']),
        TokenView::OpenBrace => Some(seq!['{']),
        TokenView::CloseBrace => Some(seq!['}']),
        TokenView::OpenBracket => Some(seq!['[']),
        TokenView::CloseBracket => Some(seq![']']),
        TokenView::Comma => Some(seq![',']),
        TokenView::Dot => Some(seq!['.']),
        _ => None,
    }
}

/// The text that a token renders to.
pub open spec fn token_text(t: TokenView) -> Seq<char> {
    match t {
        TokenView::Number(s) => s,
        TokenView::String(s) => seq!['"'] + s + seq!['"'],
        TokenView::Ident(s) => s,
        TokenView::Variable(s) => seq!['$'] + s,
        TokenView::ParentRef(s) => seq!['^'] + s,
        TokenView::GrandparentRef(s) => seq!['^', '^'] + s,
        _ => fixed_text(t).unwrap(),
    }
}

/// Relies on `String`'s `FromIterator<char>`: the string holds the given
/// characters, in order.
#[verifier::external_body]
pub(crate) fn string_from_chars(v: &[char]) -> (r: String)
    ensures
        r@ == v@,
{
    v.iter().collect()
}

/// The characters of `s` after the characters of `a`, as a string.
fn prefixed(a: &[char], s: &String) -> (r: String)
    ensures
        r@ == a@ + s@,
{
    let head = string_from_chars(a);
    head.concat(s.as_str())
}

impl Token {
    /// Renders the token as query text.
    pub fn to_string(&self) -> (r: String)
        ensures
            r@ == token_text(self@),
    {
        let fixed: Vec<char> = match self {
            Token::Number(s) => return s.clone(),
            Token::String(s) => {
                let quote = string_from_chars(&['"']);
                return prefixed(&['"'], s).concat(quote.as_str());
            },
            Token::Ident(s) => return s.clone(),
            Token::Keyword(k) => k.text_chars(),
            Token::Variable(s) => return prefixed(&['$'], s),
            Token::ParentRef(s) => return prefixed(&['^'], s),
            Token::GrandparentRef(s) => return prefixed(&['^', '^'], s),
            Token::Equal => vec!['='],
            Token::NotEqual => vec!['!', '='],
            Token::GreaterThan => vec!['>'],
            Token::GreaterThanOrEqual => vec!['>', '='],
            Token::LessThan => vec!['<'],
            Token::LessThanOrEqual => vec!['<', '='],
            Token::Plus => vec!['+'],
            Token::Minus => vec!['-'],
            Token::Asterisk => vec!['*'],
            Token::Slash => vec!['/'],
            Token::Percent => vec!['%'],
            Token::ColonColon => vec![':', ':'],
            Token::Colon => vec![':'],
            Token::OpenParen => vec!['('],
            Token::CloseParen => vec![')'],
            Token::OpenBrace => vec!['{'],
            Token::CloseBrace => vec!['}'],
            Token::OpenBracket => vec!['['],
            Token::CloseBracket => vec![']'],
            Token::Comma => vec![','],
            Token::Dot => vec!['.'],
        };
        string_from_chars(fixed.as_slice())
    }
}

/// Whether two character sequences are equal.
pub fn chars_equal(a: &[char], b: &[char]) -> (r: bool)
    ensures
        r == (a@ == b@),
{
    if a.len() != b.len() {
        return false;
    }
    let mut i: usize = 0;
    while i < a.len()
        invariant
            a@.len() == b@.len(),
            i <= a@.len(),
            forall|j: int| 0 <= j < i ==> a@[j] == b@[j],
        decreases a@.len() - i,
    {
        if a[i] != b[i] {
            return false;
        }
        i = i + 1;
    }
    assert(a@ =~= b@);
    true
}

} // verus!
