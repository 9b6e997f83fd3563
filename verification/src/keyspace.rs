//! Validated CQL keyspace identifiers.
//!
//! Every adapter interpolates a keyspace into its CQL, so the name has to be a
//! checked unquoted identifier rather than a caller-supplied string. Table
//! names are never supplied by callers at all.

use vstd::prelude::*;
use vstd::string::StrSliceExecFns;

verus! {

/// Longest identifier ScyllaDB accepts for a keyspace, in bytes.
pub const MAX_KEYSPACE_NAME_LEN: usize = 48;

pub open spec fn ascii_letter(ch: char) -> bool {
    ('a' <= ch && ch <= 'z') || ('A' <= ch && ch <= 'Z')
}

pub open spec fn ascii_digit(ch: char) -> bool {
    '0' <= ch && ch <= '9'
}

/// An unquoted identifier: a letter or underscore first, then letters, digits
/// and underscores, in at most [`MAX_KEYSPACE_NAME_LEN`] bytes.
pub open spec fn valid_keyspace_name(name: Seq<char>) -> bool {
    &&& name.len() > 0
    &&& vstd::utf8::encode_utf8(name).len() <= MAX_KEYSPACE_NAME_LEN
    &&& name[0] == '_' || ascii_letter(name[0])
    &&& forall|i: int|
        0 < i < name.len() ==> #[trigger] name[i] == '_' || ascii_letter(name[i]) || ascii_digit(
            name[i],
        )
}

/// The name that is no valid identifier.
#[derive(Clone, Debug, PartialEq, Eq)]
pub struct InvalidCqlKeyspaceName(pub String);

/// A validated unquoted CQL identifier.
#[derive(Debug, PartialEq, Eq, Hash)]
pub struct CqlKeyspaceName {
    name: String,
}

impl View for CqlKeyspaceName {
    type V = Seq<char>;

    closed spec fn view(&self) -> Seq<char> {
        self.name@
    }
}

impl Clone for CqlKeyspaceName {
    fn clone(&self) -> (copy: Self)
        ensures
            copy@ == self@,
    {
        proof {
            use_type_invariant(self);
        }
        CqlKeyspaceName { name: self.name.clone() }
    }
}

pub(crate) fn is_letter(ch: char) -> (yes: bool)
    ensures
        yes == ascii_letter(ch),
{
    ('a' <= ch && ch <= 'z') || ('A' <= ch && ch <= 'Z')
}

pub(crate) fn is_digit(ch: char) -> (yes: bool)
    ensures
        yes == ascii_digit(ch),
{
    '0' <= ch && ch <= '9'
}

fn is_valid(name: &str) -> (valid: bool)
    ensures
        valid == valid_keyspace_name(name@),
{
    if name.as_bytes().len() > MAX_KEYSPACE_NAME_LEN {
        return false;
    }
    let count: usize = name.unicode_len();
    if count == 0 {
        return false;
    }
    let first: char = name.get_char(0);
    if !(first == '_' || is_letter(first)) {
        return false;
    }
    let mut i: usize = 1;
    while i < count
        invariant
            1 <= i <= count,
            count == name@.len(),
            forall|j: int|
                0 < j < i ==> #[trigger] name@[j] == '_' || ascii_letter(name@[j]) || ascii_digit(
                    name@[j],
                ),
        decreases count - i,
    {
        let ch: char = name.get_char(i);
        if !(ch == '_' || is_letter(ch) || is_digit(ch)) {
            assert(!(name@[i as int] == '_' || ascii_letter(name@[i as int]) || ascii_digit(
                name@[i as int],
            )));
            return false;
        }
        i += 1;
    }
    true
}

impl CqlKeyspaceName {
    #[verifier::type_invariant]
    spec fn is_identifier(self) -> bool {
        valid_keyspace_name(self.name@)
    }

    /// Accepts exactly the valid identifiers; a refused name is handed back.
    pub fn try_new(name: &str) -> (result: Result<Self, InvalidCqlKeyspaceName>)
        ensures
            match result {
                Ok(keyspace) => valid_keyspace_name(name@) && keyspace@ == name@,
                Err(invalid) => !valid_keyspace_name(name@) && invalid.0@ == name@,
            },
    {
        if is_valid(name) {
            Ok(CqlKeyspaceName { name: name.to_owned() })
        } else {
            Err(InvalidCqlKeyspaceName(name.to_owned()))
        }
    }

    pub fn as_str(&self) -> (name: &str)
        ensures
            name@ == self@,
            valid_keyspace_name(self@),
    {
        proof {
            use_type_invariant(self);
        }
        self.name.as_str()
    }
}

/// A name is an identifier exactly if it is neither empty nor too long, starts with a
/// letter or an underscore, and goes on with letters, digits and underscores. Nothing that
/// would end or quote an identifier can stand in it.
pub proof fn law_identifiers_hold_no_punctuation(name: Seq<char>, i: int)
    requires
        valid_keyspace_name(name),
        0 <= i < name.len(),
    ensures
        name[i] == '_' || ('a' <= name[i] && name[i] <= 'z') || ('A' <= name[i] && name[i] <= 'Z')
            || (i > 0 && '0' <= name[i] && name[i] <= '9'),
        name[i] != '.' && name[i] != ' ' && name[i] != ';' && name[i] != '"' && name[i] != '?',
        vstd::utf8::encode_utf8(name).len() <= MAX_KEYSPACE_NAME_LEN,
{
}

/// Every such name is one.
pub proof fn law_plain_names_are_identifiers(name: Seq<char>)
    requires
        name.len() > 0,
        vstd::utf8::encode_utf8(name).len() <= MAX_KEYSPACE_NAME_LEN,
        forall|i: int|
            0 <= i < name.len() ==> #[trigger] name[i] == '_' || ('a' <= name[i] && name[i] <= 'z')
                || ('A' <= name[i] && name[i] <= 'Z') || (i > 0 && '0' <= name[i] && name[i] <= '9'),
    ensures
        valid_keyspace_name(name),
{
    assert(name[0] == '_' || ascii_letter(name[0]));
}

} // verus!
