use vstd::prelude::*;

verus! {

/// The request methods that routes can be registered for.
#[derive(Debug, Clone, Copy, PartialEq, Eq, Structural)]
pub enum HttpMethod {
    GET,
    POST,
    PUT,
    DELETE,
}

/// The textual name of a method, as it appears on the request line.
pub open spec fn method_name(m: HttpMethod) -> Seq<char> {
    match m {
        HttpMethod::GET => seq!['G', 'E', 'T'],
        HttpMethod::POST => seq!['P', 'O', 'S', 'T'],
        HttpMethod::PUT => seq!['P', 'U', 'T'],
        HttpMethod::DELETE => seq!['D', 'E', 'L', 'E', 'T', 'E'],
    }
}

/// The method whose textual name is `s`, if any.
pub open spec fn method_of(s: Seq<char>) -> Option<HttpMethod> {
    if s == method_name(HttpMethod::GET) {
        Some(HttpMethod::GET)
    } else if s == method_name(HttpMethod::POST) {
        Some(HttpMethod::POST)
    } else if s == method_name(HttpMethod::PUT) {
        Some(HttpMethod::PUT)
    } else if s == method_name(HttpMethod::DELETE) {
        Some(HttpMethod::DELETE)
    } else {
        None
    }
}

/// Two methods are the same exactly when their names are.
pub proof fn lemma_method_name_injective(a: HttpMethod, b: HttpMethod)
    ensures
        method_name(a) == method_name(b) <==> a == b,
{
    if method_name(a) == method_name(b) {
        assert(method_name(a).len() == method_name(b).len());
        assert(method_name(a)[0] == method_name(b)[0]);
        assert(method_name(a)[1] == method_name(b)[1]);
    }
}

/// Reading back a method's name gives the method.
pub proof fn lemma_method_of_name(m: HttpMethod)
    ensures
        method_of(method_name(m)) == Some(m),
{
    lemma_method_name_injective(m, HttpMethod::GET);
    lemma_method_name_injective(m, HttpMethod::POST);
    lemma_method_name_injective(m, HttpMethod::PUT);
}

impl HttpMethod {
    /// The method's name, such as `"GET"`.
    pub fn to_string(&self) -> (r: String)
        ensures
            r@ == method_name(*self),
    {
        let s = match self {
            HttpMethod::GET => "GET",
            HttpMethod::POST => "POST",
            HttpMethod::PUT => "PUT",
            HttpMethod::DELETE => "DELETE",
        };
        proof {
            reveal_strlit("GET");
            reveal_strlit("POST");
            reveal_strlit("PUT");
            reveal_strlit("DELETE");
        }
        s.to_owned()
    }

    /// The method named `name`, or `None` when it is not one of the four.
    pub fn from_name(name: &str) -> (r: Option<HttpMethod>)
        ensures
            r == method_of(name@),
    {
        let s = name.to_owned();
        let get = HttpMethod::GET.to_string();
        let post = HttpMethod::POST.to_string();
        let put = HttpMethod::PUT.to_string();
        let delete = HttpMethod::DELETE.to_string();
        if s == get {
            Some(HttpMethod::GET)
        } else if s == post {
            Some(HttpMethod::POST)
        } else if s == put {
            Some(HttpMethod::PUT)
        } else if s == delete {
            Some(HttpMethod::DELETE)
        } else {
            None
        }
    }
}

} // verus!
