//! Text of an input field together with the mark that says whether the text
//! could be parsed.

use vstd::prelude::*;

verus! {

/// The text of an input field, and whether the field takes it for valid.
#[derive(Debug)]
pub struct ValidatedString {
    value: String,
    valid: bool,
}

impl View for ValidatedString {
    type V = Seq<char>;

    closed spec fn view(&self) -> Seq<char> {
        self.value@
    }
}

impl ValidatedString {
    /// Whether the text is taken for valid.
    pub closed spec fn valid(&self) -> bool {
        self.valid
    }

    /// Two values are the same when text and mark agree.
    pub open spec fn same_as(&self, other: &ValidatedString) -> bool {
        self@ == other@ && self.valid() == other.valid()
    }

    /// The text `s`, taken for valid.
    pub fn from_str(s: &str) -> (text: ValidatedString)
        ensures
            text@ == s@,
            text.valid(),
    {
        ValidatedString { value: s.to_owned(), valid: true }
    }

    /// The text.
    pub fn as_str(&self) -> (s: &str)
        ensures
            s@ == self@,
    {
        self.value.as_str()
    }

    /// The length of the text in bytes, as UTF-8.
    pub fn len(&self) -> (len: usize)
        ensures
            len == vstd::utf8::encode_utf8(self@).len() as usize,
    {
        self.value.as_str().len()
    }

    /// Whether the text is empty.
    pub fn is_empty(&self) -> (empty: bool)
        ensures
            empty == (self@.len() == 0),
    {
        self.value.as_str().is_empty()
    }

    /// Whether the text is taken for valid.
    #[verifier::when_used_as_spec(valid)]
    pub fn is_valid(&self) -> (valid: bool)
        ensures
            valid == self.valid(),
    {
        self.valid
    }

    /// Whether the two values are the same.
    #[verifier::when_used_as_spec(same_as)]
    pub fn same(&self, other: &ValidatedString) -> (same: bool)
        ensures
            same == self.same_as(other),
    {
        self.value == other.value && self.valid == other.valid
    }

    /// Takes freshly formatted text. Text that a formatter wrote is valid.
    pub fn set_formatted(&mut self, text: String)
        ensures
            final(self)@ == text@,
            final(self).valid(),
    {
        self.value = text;
        self.valid = true;
    }

    /// Marks the text as valid or not, after an attempt to parse it.
    pub fn set_valid(&mut self, valid: bool)
        ensures
            final(self)@ == old(self)@,
            final(self).valid() == valid,
    {
        self.valid = valid;
    }

    /// Whether the text has to be parsed again: it has to unless it is the
    /// text that was parsed last, which `cached` holds.
    pub fn needs_write_back(&self, cached: &Option<String>) -> (needed: bool)
        ensures
            needed == !(*cached matches Some(text) && text@ == self@),
    {
        match cached {
            Some(text) => !(*text == self.value),
            None => true,
        }
    }
}

} // verus!
