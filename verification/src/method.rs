//! Request methods.

use vstd::prelude::*;

use crate::headers;
use crate::text;

verus! {

/// The name of a method that has no variant of its own. It is a token.
#[derive(Debug, PartialEq, Eq)]
pub struct MethodName {
    name: String,
}

impl View for MethodName {
    type V = Seq<char>;

    closed spec fn view(&self) -> Seq<char> {
        self.name@
    }
}

/// The method of a request.
#[derive(Debug, PartialEq, Eq)]
pub enum Method {
    /// `GET`
    Get,
    /// `POST`
    Post,
    /// `PUT`
    Put,
    /// `PATCH`
    Patch,
    /// `DELETE`
    Delete,
    /// `HEAD`
    Head,
    /// Any other method, by its name.
    Other(MethodName),
}

/// Whether `name` can be the name of a method: one or more characters, of those
/// that header names are made of.
pub open spec fn is_method_name(name: Seq<char>) -> bool {
    name.len() > 0 && forall|i: int|
        0 <= i < name.len() ==> headers::is_token_char(#[trigger] name[i])
}

impl MethodName {
    #[verifier::type_invariant]
    spec fn is_token(self) -> bool {
        is_method_name(self.name@)
    }

    /// The name as it is sent.
    pub fn as_str(&self) -> (r: &str)
        ensures
            r@ == self@,
            is_method_name(r@),
    {
        proof {
            use_type_invariant(self);
        }
        self.name.as_str()
    }
}

impl Method {
    /// The name of the method.
    pub open spec fn name(self) -> Seq<char> {
        match self {
            Method::Get => "GET"@,
            Method::Post => "POST"@,
            Method::Put => "PUT"@,
            Method::Patch => "PATCH"@,
            Method::Delete => "DELETE"@,
            Method::Head => "HEAD"@,
            Method::Other(name) => name@,
        }
    }

    /// The method with this name, if it can be the name of one.
    pub fn parse(name: &str) -> (r: Option<Method>)
        ensures
            match r {
                Some(method) => is_method_name(name@) && method.name() == name@,
                None => !is_method_name(name@),
            },
    {
        let chars = text::chars_of(name);
        if chars.len() == 0 {
            return None;
        }
        let mut i: usize = 0;
        while i < chars.len()
            invariant
                i <= chars.len(),
                chars@ == name@,
                forall|j: int| 0 <= j < i ==> headers::is_token_char(#[trigger] name@[j]),
            decreases chars.len() - i,
        {
            if !headers::token_char(chars[i]) {
                assert(!headers::is_token_char(name@[i as int]));
                return None;
            }
            i = i + 1;
        }
        Some(
            if text::same_text(name, "GET") {
                Method::Get
            } else if text::same_text(name, "POST") {
                Method::Post
            } else if text::same_text(name, "PUT") {
                Method::Put
            } else if text::same_text(name, "PATCH") {
                Method::Patch
            } else if text::same_text(name, "DELETE") {
                Method::Delete
            } else if text::same_text(name, "HEAD") {
                Method::Head
            } else {
                Method::Other(MethodName { name: name.to_owned() })
            },
        )
    }

    /// The name of the method as it is sent.
    pub fn as_str(&self) -> (r: &str)
        ensures
            r@ == self.name(),
            is_method_name(r@),
    {
        proof {
            reveal_strlit("GET");
            reveal_strlit("POST");
            reveal_strlit("PUT");
            reveal_strlit("PATCH");
            reveal_strlit("DELETE");
            reveal_strlit("HEAD");
        }
        match self {
            Method::Get => "GET",
            Method::Post => "POST",
            Method::Put => "PUT",
            Method::Patch => "PATCH",
            Method::Delete => "DELETE",
            Method::Head => "HEAD",
            Method::Other(name) => name.as_str(),
        }
    }
}

/// A method is told by its name: the names of two methods differ unless the
/// methods are the same, or one of them bears a name of its own.
pub proof fn law_names_tell_methods_apart(a: Method, b: Method)
    requires
        a.name() == b.name(),
    ensures
        !(a is Other) && !(b is Other) ==> a == b,
        a matches Method::Other(name) ==> a.name() == name@,
{
    reveal_strlit("GET");
    reveal_strlit("POST");
    reveal_strlit("PUT");
    reveal_strlit("PATCH");
    reveal_strlit("DELETE");
    reveal_strlit("HEAD");
    assert("GET"@.len() == 3 && "PUT"@.len() == 3 && "POST"@.len() == 4 && "HEAD"@.len() == 4);
    assert("PATCH"@.len() == 5 && "DELETE"@.len() == 6);
    assert("GET"@[0] == 'G' && "PUT"@[0] == 'P' && "POST"@[0] == 'P' && "HEAD"@[0] == 'H');
}

/// The names of methods are made of the characters that header names are made
/// of, one or more.
pub proof fn law_method_names_are_tokens(name: Seq<char>)
    ensures
        is_method_name(name) <==> name.len() > 0 && forall|i: int|
            0 <= i < name.len() ==> headers::is_token_char(#[trigger] name[i]),
        name.len() < 65_536 ==> (is_method_name(name) <==> headers::is_header_name(name)),
{
}

} // verus!
