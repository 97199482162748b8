//! Namespaced identifiers (`namespace:path`), as used for recipes, tags,
//! functions and every other datapack resource.
//!
//! A namespace may hold `a-z`, `0-9`, `_`, `-` and `.`; a path may hold the
//! same characters and `/`.  Parsing splits at the first `:`; a missing or
//! empty namespace means `minecraft`.
use vstd::prelude::*;

use crate::text::{
    concat_chars, find_char_from, index_of_char, lemma_find_from, slice_chars, str_chars,
    string_from_chars,
};

verus! {

pub open spec fn is_namespace_char(c: char) -> bool {
    let u = c as u32;
    ||| 0x61 <= u <= 0x7a
    ||| 0x30 <= u <= 0x39
    ||| u == 0x5f
    ||| u == 0x2d
    ||| u == 0x2e
}

pub open spec fn is_path_char(c: char) -> bool {
    is_namespace_char(c) || c as u32 == 0x2f
}

pub open spec fn valid_namespace(s: Seq<char>) -> bool {
    forall|i: int| 0 <= i < s.len() ==> is_namespace_char(#[trigger] s[i])
}

pub open spec fn valid_path(s: Seq<char>) -> bool {
    forall|i: int| 0 <= i < s.len() ==> is_path_char(#[trigger] s[i])
}

/// The default namespace, `minecraft`.
pub open spec fn minecraft_ns() -> Seq<char> {
    seq!['m', 'i', 'n', 'e', 'c', 'r', 'a', 'f', 't']
}

/// `minecraft:`, the prefix of every vanilla identifier.
pub open spec fn minecraft_prefix() -> Seq<char> {
    minecraft_ns().push(':')
}

/// The namespace and path that `s` names, before validation.
pub open spec fn split_identifier(s: Seq<char>) -> (Seq<char>, Seq<char>) {
    let k = index_of_char(s, ':');
    if k < s.len() {
        (if k == 0 {
            minecraft_ns()
        } else {
            s.take(k)
        }, s.skip(k + 1))
    } else {
        (minecraft_ns(), s)
    }
}

/// The identifier `s` denotes, when it is well formed.
pub open spec fn parse_identifier(s: Seq<char>) -> Option<(Seq<char>, Seq<char>)> {
    let (ns, path) = split_identifier(s);
    if valid_namespace(ns) && valid_path(path) {
        Some((ns, path))
    } else {
        None
    }
}

/// The text form `namespace:path`.
pub open spec fn identifier_text(ns: Seq<char>, path: Seq<char>) -> Seq<char> {
    ns + seq![':'] + path
}

/// Why an identifier was refused.
#[derive(Clone, Debug, PartialEq, Eq)]
pub enum IdentifierError {
    InvalidNamespace(String),
    InvalidPath(String),
}

/// The message that refuses the identifier `ns:path`: the namespace is
/// blamed first.
pub open spec fn identifier_error_text(ns: Seq<char>, path: Seq<char>) -> Seq<char> {
    if !valid_namespace(ns) {
        "invalid namespace "@ + ns
    } else {
        "invalid path "@ + path
    }
}

/// The identifier `ns:path` in text form, or why it is refused.
pub open spec fn identified(ns: Seq<char>, path: Seq<char>) -> Result<Seq<char>, Seq<char>> {
    if valid_namespace(ns) && valid_path(path) {
        Ok(identifier_text(ns, path))
    } else {
        Err(identifier_error_text(ns, path))
    }
}

impl IdentifierError {
    /// The text that `message` gives.
    pub open spec fn text(&self) -> Seq<char> {
        match self {
            IdentifierError::InvalidNamespace(ns) => "invalid namespace "@ + ns@,
            IdentifierError::InvalidPath(p) => "invalid path "@ + p@,
        }
    }

    /// The human-readable message of this error.
    pub fn message(&self) -> (r: String)
        ensures
            r@ == self.text(),
    {
        match self {
            IdentifierError::InvalidNamespace(ns) => {
                let head = str_chars("invalid namespace ");
                let tail = str_chars(ns.as_str());
                let all = concat_chars(&head, &tail);
                string_from_chars(&all)
            },
            IdentifierError::InvalidPath(p) => {
                let head = str_chars("invalid path ");
                let tail = str_chars(p.as_str());
                let all = concat_chars(&head, &tail);
                string_from_chars(&all)
            },
        }
    }
}

/// A validated `namespace:path` identifier.
#[derive(Clone, Debug, PartialEq, Eq)]
pub struct Identifier {
    pub namespace: String,
    pub path: String,
}

pub fn is_namespace_char_exec(c: char) -> (r: bool)
    ensures
        r == is_namespace_char(c),
{
    let u = c as u32;
    (0x61 <= u && u <= 0x7a) || (0x30 <= u && u <= 0x39) || u == 0x5f || u == 0x2d || u == 0x2e
}

pub fn is_path_char_exec(c: char) -> (r: bool)
    ensures
        r == is_path_char(c),
{
    is_namespace_char_exec(c) || c as u32 == 0x2f
}

pub fn valid_namespace_exec(s: &Vec<char>) -> (r: bool)
    ensures
        r == valid_namespace(s@),
{
    let mut i: usize = 0;
    while i < s.len()
        invariant
            i <= s.len(),
            forall|j: int| 0 <= j < i ==> is_namespace_char(#[trigger] s@[j]),
        decreases s.len() - i,
    {
        if !is_namespace_char_exec(s[i]) {
            return false;
        }
        i = i + 1;
    }
    true
}

pub fn valid_path_exec(s: &Vec<char>) -> (r: bool)
    ensures
        r == valid_path(s@),
{
    let mut i: usize = 0;
    while i < s.len()
        invariant
            i <= s.len(),
            forall|j: int| 0 <= j < i ==> is_path_char(#[trigger] s@[j]),
        decreases s.len() - i,
    {
        if !is_path_char_exec(s[i]) {
            return false;
        }
        i = i + 1;
    }
    true
}

pub fn minecraft_chars() -> (r: Vec<char>)
    ensures
        r@ == minecraft_ns(),
{
    let r = str_chars("minecraft");
    proof {
        reveal_strlit("minecraft");
    }
    r
}

impl Identifier {
    /// Builds an identifier from its two parts, refusing characters that
    /// neither part may hold.
    pub fn new(namespace: String, path: String) -> (r: Result<Identifier, IdentifierError>)
        ensures
            valid_namespace(namespace@) && valid_path(path@) <==> r is Ok,
            r matches Ok(id) ==> id.namespace@ == namespace@ && id.path@ == path@,
            r matches Err(e) ==> e.text() == identifier_error_text(namespace@, path@),
    {
        let ns = str_chars(namespace.as_str());
        if !valid_namespace_exec(&ns) {
            return Err(IdentifierError::InvalidNamespace(namespace));
        }
        let p = str_chars(path.as_str());
        if !valid_path_exec(&p) {
            return Err(IdentifierError::InvalidPath(path));
        }
        Ok(Identifier { namespace, path })
    }

    /// Parses `namespace:path`; without a namespace the identifier is in
    /// `minecraft`.
    pub fn parse(text: &str) -> (r: Result<Identifier, IdentifierError>)
        ensures
            parse_identifier(text@) is Some <==> r is Ok,
            r matches Ok(id) ==> parse_identifier(text@) == Some((id.namespace@, id.path@)),
            r matches Err(e) ==> e.text() == identifier_error_text(
                split_identifier(text@).0,
                split_identifier(text@).1,
            ),
    {
        let s = str_chars(text);
        let k = find_char_from(&s, ':', 0);
        proof {
            lemma_find_from(s@, ':', 0);
        }
        let (ns, path) = if k < s.len() {
            let ns = if k == 0 {
                minecraft_chars()
            } else {
                slice_chars(&s, 0, k)
            };
            (ns, slice_chars(&s, k + 1, s.len()))
        } else {
            (minecraft_chars(), slice_chars(&s, 0, s.len()))
        };
        proof {
            assert(split_identifier(s@).0 =~= ns@);
            assert(split_identifier(s@).1 =~= path@);
        }
        Identifier::new(string_from_chars(&ns), string_from_chars(&path))
    }

    /// The text form `namespace:path`.
    pub fn as_string(&self) -> (r: String)
        ensures
            r@ == identifier_text(self.namespace@, self.path@),
    {
        let ns = str_chars(self.namespace.as_str());
        let p = str_chars(self.path.as_str());
        let mut colon: Vec<char> = Vec::new();
        colon.push(':');
        let head = concat_chars(&ns, &colon);
        let all = concat_chars(&head, &p);
        string_from_chars(&all)
    }
}

} // verus!
