//! Identifiers of users, sessions and guilds.

use vstd::prelude::*;
use vstd::string::*;

verus! {

/// The opaque identifier of a user, a session or a guild: on the wire a string
/// that is well formed when it holds exactly 24 lower-case hexadecimal digits.
#[derive(Debug, PartialEq, Eq)]
pub struct ID {
    pub id: String,
}

/// A lower-case hexadecimal digit.
pub open spec fn is_hex_digit(c: char) -> bool {
    ('0' <= c && c <= '9') || ('a' <= c && c <= 'f')
}

/// The text of a well-formed identifier.
pub open spec fn is_id(s: Seq<char>) -> bool {
    &&& s.len() == 24
    &&& forall|i: int| 0 <= i < s.len() ==> is_hex_digit(#[trigger] s[i])
}

impl View for ID {
    type V = Seq<char>;

    open spec fn view(&self) -> Seq<char> {
        self.id@
    }
}

impl Clone for ID {
    fn clone(&self) -> (res: Self)
        ensures
            res@ == self@,
    {
        ID { id: self.id.clone() }
    }
}

fn hex_digit(c: char) -> (b: bool)
    ensures
        b == is_hex_digit(c),
{
    (c >= '0' && c <= '9') || (c >= 'a' && c <= 'f')
}

impl ID {
    /// Accepts `id` exactly when it is the text of a well-formed identifier.
    pub fn new(id: String) -> (res: Option<Self>)
        ensures
            res is Some <==> is_id(id@),
            res is Some ==> res->0@ == id@,
    {
        let candidate = ID { id };
        if candidate.is_valid() {
            Some(candidate)
        } else {
            None
        }
    }

    /// Whether the held text is a well-formed identifier.
    pub fn is_valid(&self) -> (b: bool)
        ensures
            b == is_id(self@),
    {
        let text = self.id.as_str();
        if text.unicode_len() != 24 {
            return false;
        }
        let mut i: usize = 0;
        while i < 24
            invariant
                i <= 24,
                text@ == self@,
                text@.len() == 24,
                forall|j: int| 0 <= j < i ==> is_hex_digit(#[trigger] text@[j]),
            decreases 24 - i,
        {
            if !hex_digit(text.get_char(i)) {
                return false;
            }
            i += 1;
        }
        true
    }

    /// The identifier's text.
    pub fn to_string(&self) -> (res: String)
        ensures
            res@ == self@,
    {
        self.id.clone()
    }

    /// Whether two identifiers hold the same text.
    pub fn same(&self, other: &ID) -> (b: bool)
        ensures
            b == (self@ == other@),
    {
        self.id == other.id
    }
}

} // verus!
