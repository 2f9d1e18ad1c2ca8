//! The routing rules of the HTTP surface: which method and path name which
//! operation, and which path segment carries the record identifier.

use vstd::prelude::*;

verus! {

use vstd::string::StringExecFns;

/// An HTTP method the service answers to.
#[derive(Clone, Copy, PartialEq, Eq, Structural, Debug)]
pub enum Method {
    Get,
    Post,
    Put,
    Delete,
}

/// One of the four operations, with the identifier segment where the route
/// carries one.
pub enum Route {
    ListBooks,
    CreateBook,
    EditBook(String),
    DeleteBook(String),
}

/// The ghost shape of a route: identifiers as character sequences.
pub enum RouteSpec {
    List,
    Create,
    Edit(Seq<char>),
    Delete(Seq<char>),
}

impl Route {
    pub open spec fn view(self) -> RouteSpec {
        match self {
            Route::ListBooks => RouteSpec::List,
            Route::CreateBook => RouteSpec::Create,
            Route::EditBook(id) => RouteSpec::Edit(id@),
            Route::DeleteBook(id) => RouteSpec::Delete(id@),
        }
    }
}

/// The route named by a method and a path, split into segments: the
/// collection itself answers GET (list) and POST (create); a record under it
/// answers PUT (replace) and DELETE. Anything else matches no route.
pub open spec fn route_of(m: Method, segs: Seq<Seq<char>>) -> Option<RouteSpec> {
    if segs.len() == 1 && segs[0] == "book"@ {
        match m {
            Method::Get => Some(RouteSpec::List),
            Method::Post => Some(RouteSpec::Create),
            _ => None,
        }
    } else if segs.len() == 2 && segs[0] == "book"@ {
        match m {
            Method::Put => Some(RouteSpec::Edit(segs[1])),
            Method::Delete => Some(RouteSpec::Delete(segs[1])),
            _ => None,
        }
    } else {
        None
    }
}

/// Match a request's method and path segments against the four routes.
pub fn match_route(m: Method, segments: &Vec<String>) -> (r: Option<Route>)
    ensures
        r matches Some(rt) ==> route_of(m, segments.deep_view()) == Some(rt@),
        r is None ==> route_of(m, segments.deep_view()) is None,
{
    proof {
        assert(segments.deep_view().len() == segments@.len());
        assert(forall|i: int|
            0 <= i < segments@.len() ==> segments.deep_view()[i] == #[trigger] segments@[i]@);
    }
    let book = String::from_str("book");
    if segments.len() == 1 && segments[0] == book {
        match m {
            Method::Get => Some(Route::ListBooks),
            Method::Post => Some(Route::CreateBook),
            _ => None,
        }
    } else if segments.len() == 2 && segments[0] == book {
        let id = segments[1].clone();
        match m {
            Method::Put => Some(Route::EditBook(id)),
            Method::Delete => Some(Route::DeleteBook(id)),
            _ => None,
        }
    } else {
        None
    }
}

} // verus!
