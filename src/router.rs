use vstd::prelude::*;

use crate::http_method::{HttpMethod, method_name, method_of};

verus! {

/// A path and method that a handler is registered for.
#[derive(Debug, Clone)]
pub struct Route {
    pub path: String,
    pub method: HttpMethod,
}

/// The key under which a route is registered.
pub open spec fn route_key(r: Route) -> (Seq<char>, HttpMethod) {
    (r.path@, r.method)
}

impl Route {
    pub fn new(path: String, method: HttpMethod) -> (r: Route)
        ensures
            r.path == path,
            r.method == method,
    {
        Route { path, method }
    }
}

impl PartialEq for Route {
    /// Routes are equal when their paths and their methods' names are.
    fn eq(&self, other: &Route) -> (r: bool)
        ensures
            r == (self.path@ == other.path@ && method_name(self.method) == method_name(
                other.method,
            )),
    {
        let same_path = self.path == other.path;
        let same_method = self.method.to_string() == other.method.to_string();
        same_path && same_method
    }
}

impl vstd::std_specs::cmp::PartialEqSpecImpl for Route {
    open spec fn obeys_eq_spec() -> bool {
        true
    }

    open spec fn eq_spec(&self, other: &Route) -> bool {
        self.path@ == other.path@ && method_name(self.method) == method_name(other.method)
    }
}

impl Eq for Route {
}

/// What a route leads to.
#[derive(Debug, Clone, Copy)]
pub struct RouterElement<H> {
    pub callback_function: H,
}

/// The table that a list of registrations makes: a key registered twice
/// keeps its first handler.
pub open spec fn route_map<H>(s: Seq<(Route, RouterElement<H>)>) -> Map<(Seq<char>, HttpMethod), H>
    decreases s.len(),
{
    if s.len() == 0 {
        Map::empty()
    } else {
        let m = route_map(s.drop_last());
        let k = route_key(s.last().0);
        if m.contains_key(k) {
            m
        } else {
            m.insert(k, s.last().1.callback_function)
        }
    }
}

proof fn lemma_route_map_prefix<H>(s: Seq<(Route, RouterElement<H>)>, k: (Seq<char>, HttpMethod), i: int)
    requires
        0 <= i <= s.len(),
        forall|j: int| 0 <= j < i ==> route_key(#[trigger] s[j].0) != k,
        i < s.len() ==> route_key(s[i].0) == k,
    ensures
        i < s.len() ==> route_map(s).contains_key(k) && route_map(s)[k] == s[i].1.callback_function,
        i == s.len() ==> !route_map(s).contains_key(k),
    decreases s.len(),
{
    if s.len() > 0 {
        let d = s.drop_last();
        if i == s.len() {
            lemma_route_map_prefix(d, k, i - 1);
            assert(route_key(s[i - 1].0) != k);
        } else if i == s.len() - 1 {
            lemma_route_map_prefix(d, k, i);
        } else {
            lemma_route_map_prefix(d, k, i);
        }
    }
}

/// Maps each registered path and method to a handler, with the fallbacks
/// for a request that matches no route and for a handler that fails; a
/// fallback left `None` stands for the built-in one.
#[derive(Debug, Clone)]
pub struct Router<H> {
    pub router_elem_mapper: Vec<(Route, RouterElement<H>)>,
    pub not_found_func: Option<H>,
    pub internal_server_error: Option<H>,
}

impl<H: Copy> Router<H> {
    /// The registered handlers by path and method.
    pub open spec fn routes(&self) -> Map<(Seq<char>, HttpMethod), H> {
        route_map(self.router_elem_mapper@)
    }

    /// A router with no route and the built-in fallbacks.
    pub fn new() -> (r: Router<H>)
        ensures
            r.routes() == Map::<(Seq<char>, HttpMethod), H>::empty(),
            r.not_found_func is None,
            r.internal_server_error is None,
    {
        Router { router_elem_mapper: Vec::new(), not_found_func: None, internal_server_error: None }
    }

    fn find(&self, path: &String, method: HttpMethod) -> (r: Option<H>)
        ensures
            match r {
                Some(h) => self.routes().contains_key((path@, method)) && self.routes()[(
                    path@,
                    method,
                )] == h,
                None => !self.routes().contains_key((path@, method)),
            },
    {
        let ghost s = self.router_elem_mapper@;
        let ghost k = (path@, method);
        let mut i: usize = 0;
        while i < self.router_elem_mapper.len()
            invariant
                i <= s.len(),
                s == self.router_elem_mapper@,
                k == (path@, method),
                forall|j: int| 0 <= j < i ==> route_key(#[trigger] s[j].0) != k,
            decreases s.len() - i,
        {
            let entry = &self.router_elem_mapper[i];
            if entry.0.path == *path && entry.0.method == method {
                proof {
                    lemma_route_map_prefix(s, k, i as int);
                }
                return Some(entry.1.callback_function);
            }
            i = i + 1;
        }
        proof {
            lemma_route_map_prefix(s, k, s.len() as int);
        }
        None
    }

    /// Registers `callback_function` for `path` and the method named
    /// `method`; false, with nothing changed, when that pair already has one.
    pub fn add_route(&mut self, path: &str, method: &str, callback_function: H) -> (r: bool)
        requires
            method_of(method@) is Some,
        ensures
            r == !old(self).routes().contains_key((path@, method_of(method@)->0)),
            r ==> final(self).routes() == old(self).routes().insert(
                (path@, method_of(method@)->0),
                callback_function,
            ),
            !r ==> final(self).routes() == old(self).routes(),
            final(self).not_found_func == old(self).not_found_func,
            final(self).internal_server_error == old(self).internal_server_error,
    {
        let path = path.to_owned();
        let method = match HttpMethod::from_name(method) {
            Some(m) => m,
            None => return false,
        };
        if self.find(&path, method).is_some() {
            return false;
        }
        let ghost s = self.router_elem_mapper@;
        let route = Route::new(path, method);
        let element = RouterElement { callback_function };
        self.router_elem_mapper.push((route, element));
        assert(self.router_elem_mapper@.drop_last() =~= s);
        true
    }

    /// The handler registered for `path` and the method named `method`;
    /// `None` when there is none, or when `method` names no known method.
    pub fn fetch_func(&self, path: &str, method: &str) -> (r: Option<H>)
        ensures
            match method_of(method@) {
                Some(m) => match r {
                    Some(h) => self.routes().contains_key((path@, m)) && self.routes()[(path@, m)]
                        == h,
                    None => !self.routes().contains_key((path@, m)),
                },
                None => r is None,
            },
    {
        let path = path.to_owned();
        match HttpMethod::from_name(method) {
            Some(m) => self.find(&path, m),
            None => None,
        }
    }
}

} // verus!
