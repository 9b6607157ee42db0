//! What differs between the sites of the game in different languages: the
//! host, and the words that a site prints for the values of a card's
//! categorical fields.

use crate::text::str_eq;
use vstd::prelude::*;

verus! {

/// A word of the site and the code that it stands for.
#[derive(Debug, PartialEq, Eq)]
pub struct Label {
    pub text: String,
    pub code: String,
}

/// The site that is read.
#[derive(Debug, PartialEq, Eq)]
pub struct Localizer {
    /// Scheme and host of the site, without a slash at the end.
    pub hostname: String,
    /// The site's own words for colors, attributes, categories and
    /// rarities. A word that is not listed is taken as its own code.
    pub labels: Vec<Label>,
}

/// The code for `text` among `labels`: that of the first label with this
/// text, and `text` itself where no label has it.
pub open spec fn code_among(labels: Seq<Label>, text: Seq<char>) -> Seq<char>
    decreases labels.len(),
{
    if labels.len() == 0 {
        text
    } else if labels.first().text@ == text {
        labels.first().code@
    } else {
        code_among(labels.drop_first(), text)
    }
}

impl Localizer {
    /// A site at `hostname` that prints the codes themselves.
    pub fn new(hostname: &str) -> (localizer: Localizer)
        ensures
            localizer.hostname@ == hostname@,
            localizer.labels@.len() == 0,
    {
        Localizer { hostname: hostname.to_owned(), labels: Vec::new() }
    }

    /// The code that the site's word `text` stands for.
    pub open spec fn code_of(&self, text: Seq<char>) -> Seq<char> {
        code_among(self.labels@, text)
    }

    /// Looks up the code that the site's word `text` stands for.
    pub fn lookup<'a>(&'a self, text: &'a str) -> (code: &'a str)
        ensures
            code@ == self.code_of(text@),
    {
        let mut i: usize = 0;
        assert(self.labels@.skip(0) =~= self.labels@);
        while i < self.labels.len()
            invariant
                i <= self.labels.len(),
                self.code_of(text@) == code_among(self.labels@.skip(i as int), text@),
            decreases self.labels.len() - i,
        {
            if str_eq(self.labels[i].text.as_str(), text) {
                return self.labels[i].code.as_str();
            }
            assert(self.labels@.skip(i as int).drop_first() =~= self.labels@.skip(i as int + 1));
            i += 1;
        }
        text
    }
}

} // verus!
