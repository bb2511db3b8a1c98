//! Names of packages, and the errors that end a run.

use vstd::prelude::*;

verus! {

/// Why a run ended without touching a file.
#[derive(Debug, Clone)]
pub enum RunError {
    /// The version upgraded from lies below the lowest one that the rules support:
    /// the dependency's name and that lowest version as it is written.
    NotMinimum(String, String),
    /// The hook that runs before the walk refused the upgrade: its number and what it
    /// said.
    Init(usize, String),
}

/// `String::push`: the text with one character more at its end.
#[verifier::external_body]
pub(crate) fn push_char(text: &mut String, c: char)
    ensures
        final(text)@ == old(text)@.push(c),
{
    text.push(c)
}

/// The character as it stands in a normalized name: a hyphen becomes an underscore.
pub open spec fn normalized_char(c: char) -> char {
    if c == '-' {
        '_'
    } else {
        c
    }
}

/// A package name with every hyphen turned into an underscore.
pub open spec fn normalized(name: Seq<char>) -> Seq<char> {
    name.map_values(|c: char| normalized_char(c))
}

/// Gives a package name the form in which names are compared: hyphens become underscores.
pub fn normalize(name: &str) -> (r: String)
    ensures
        r@ == normalized(name@),
{
    let n: usize = name.unicode_len();
    let mut r = String::new();
    let mut i: usize = 0;
    while i < n
        invariant
            i <= n,
            n == name@.len(),
            r@ == normalized(name@.take(i as int)),
        decreases n - i,
    {
        let c: char = name.get_char(i);
        let d: char = if c == '-' {
            '_'
        } else {
            c
        };
        push_char(&mut r, d);
        assert(r@ =~= normalized(name@.take(i + 1)));
        i += 1;
    }
    assert(name@.take(n as int) == name@);
    r
}

/// Whether two texts hold the same characters.
pub fn same_text(a: &str, b: &str) -> (r: bool)
    ensures
        r == (a@ == b@),
{
    let x = String::from_str(a);
    let y = String::from_str(b);
    x == y
}

/// The texts of a vector of names.
pub open spec fn names_of(names: Seq<String>) -> Seq<Seq<char>> {
    names.map_values(|s: String| s@)
}

/// `i` is the place of the first name that, normalized, is the normalized `wanted`.
pub open spec fn first_named(names: Seq<Seq<char>>, wanted: Seq<char>, i: int) -> bool {
    &&& 0 <= i < names.len()
    &&& normalized(names[i]) == normalized(wanted)
    &&& forall|j: int| 0 <= j < i ==> normalized(#[trigger] names[j]) != normalized(wanted)
}

/// None of the names, normalized, is the normalized `wanted`.
pub open spec fn none_named(names: Seq<Seq<char>>, wanted: Seq<char>) -> bool {
    forall|j: int| 0 <= j < names.len() ==> normalized(#[trigger] names[j]) != normalized(wanted)
}

/// The place of the first name that stands for `wanted`, hyphens and underscores taken
/// as one.
pub fn find_name(names: &Vec<String>, wanted: &str) -> (r: Option<usize>)
    ensures
        match r {
            Some(i) => first_named(names_of(names@), wanted@, i as int),
            None => none_named(names_of(names@), wanted@),
        },
{
    let sought = normalize(wanted);
    let mut i: usize = 0;
    while i < names.len()
        invariant
            i <= names.len(),
            sought@ == normalized(wanted@),
            forall|j: int| 0 <= j < i ==> normalized(#[trigger] names_of(names@)[j]) != sought@,
        decreases names.len() - i,
    {
        let name = normalize(names[i].as_str());
        if same_text(name.as_str(), sought.as_str()) {
            return Some(i);
        }
        i += 1;
    }
    None
}

/// A normalized name holds no hyphen, and normalizing it again changes nothing.
pub proof fn normalized_is_stable(name: Seq<char>)
    ensures
        normalized(normalized(name)) == normalized(name),
        !normalized(name).contains('-'),
{
    assert(normalized(normalized(name)) =~= normalized(name));
}

} // verus!
