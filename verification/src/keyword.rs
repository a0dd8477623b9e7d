//! The fixed keyword table of the language. Keyword-ness is a property of a
//! symbol's text, checked by string comparison; the lexer itself makes no
//! distinction between identifiers and keywords.

use vstd::prelude::*;

verus! {

#[derive(PartialEq, Eq, Structural, Copy, Clone, Debug)]
pub enum Keyword {
    Return,
}

/// A symbol's text is a keyword exactly when it is `"return"`.
pub open spec fn is_keyword_text(s: Seq<char>) -> bool {
    s == "return"@
}

impl Keyword {
    /// Classifies a symbol's text against the keyword table.
    pub fn from_str(s: &str) -> (r: Option<Keyword>)
        ensures
            r == (if is_keyword_text(s@) {
                Some(Keyword::Return)
            } else {
                None::<Keyword>
            }),
    {
        let owned = s.to_owned();
        let table_entry = String::from_str("return");
        if owned == table_entry {
            Some(Keyword::Return)
        } else {
            None
        }
    }
}

} // verus!
