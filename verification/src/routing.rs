//! Which handler an HTTP request goes to.

use vstd::prelude::*;

use crate::text::str_eq;

verus! {

broadcast use vstd::string::group_string_axioms;

/// Where a request is routed.
#[derive(Debug, Clone, Copy, PartialEq, Eq, Structural)]
pub enum Route {
    /// A CORS preflight for one of the POST routes.
    Preflight,
    Root,
    UserList,
    Signup,
    Login,
    GetUser,
    /// Anything else, answered with an empty 404.
    NotFound,
}

/// The route of a method and URL.
pub open spec fn route_of(method: Seq<char>, url: Seq<char>) -> Route {
    if method == "OPTIONS"@ && (url == "/signup"@ || url == "/login"@ || url == "/get_user"@) {
        Route::Preflight
    } else if method == "GET"@ && url == "/"@ {
        Route::Root
    } else if method == "GET"@ && url == "/user-list"@ {
        Route::UserList
    } else if method == "POST"@ && url == "/signup"@ {
        Route::Signup
    } else if method == "POST"@ && url == "/login"@ {
        Route::Login
    } else if method == "POST"@ && url == "/get_user"@ {
        Route::GetUser
    } else {
        Route::NotFound
    }
}

/// Law of routing: each handler is reached by exactly its own method and
/// URL (`GET /`, `GET /user-list`, `POST /signup`, `POST /login`, `POST
/// /get_user`), a preflight exactly by `OPTIONS` on one of the POST URLs,
/// and every other request is not found.
pub proof fn lemma_route_table(method: &str, url: &str)
    ensures
        (route_of(method@, url@) == Route::Root) <==> (method@ == "GET"@ && url@ == "/"@),
        (route_of(method@, url@) == Route::UserList) <==> (method@ == "GET"@ && url@ == "/user-list"@),
        (route_of(method@, url@) == Route::Signup) <==> (method@ == "POST"@ && url@ == "/signup"@),
        (route_of(method@, url@) == Route::Login) <==> (method@ == "POST"@ && url@ == "/login"@),
        (route_of(method@, url@) == Route::GetUser) <==> (method@ == "POST"@ && url@ == "/get_user"@),
        (route_of(method@, url@) == Route::Preflight) <==> (method@ == "OPTIONS"@ && (url@ == "/signup"@ || url@
            == "/login"@ || url@ == "/get_user"@)),
        (route_of(method@, url@) == Route::NotFound) <==> !(
            (method@ == "GET"@ && (url@ == "/"@ || url@ == "/user-list"@))
            || (method@ == "POST"@ && (url@ == "/signup"@ || url@ == "/login"@ || url@ == "/get_user"@))
            || (method@ == "OPTIONS"@ && (url@ == "/signup"@ || url@ == "/login"@ || url@ == "/get_user"@))),
{
        reveal_strlit("OPTIONS");
        reveal_strlit("GET");
        reveal_strlit("POST");
        reveal_strlit("/");
        reveal_strlit("/user-list");
        reveal_strlit("/signup");
        reveal_strlit("/login");
        reveal_strlit("/get_user");
        assert("GET"@.len() == 3 && "POST"@.len() == 4 && "OPTIONS"@.len() == 7);
        assert("/"@.len() == 1 && "/user-list"@.len() == 10 && "/signup"@.len() == 7 && "/login"@.len() == 6
            && "/get_user"@.len() == 9);
}

/// Routes a request by its method and URL.
pub fn route(method: &str, url: &str) -> (r: Route)
    ensures
        r == route_of(method@, url@),
        (r == Route::Root) <==> (method@ == "GET"@ && url@ == "/"@),
        (r == Route::UserList) <==> (method@ == "GET"@ && url@ == "/user-list"@),
        (r == Route::Signup) <==> (method@ == "POST"@ && url@ == "/signup"@),
        (r == Route::Login) <==> (method@ == "POST"@ && url@ == "/login"@),
        (r == Route::GetUser) <==> (method@ == "POST"@ && url@ == "/get_user"@),
        (r == Route::Preflight) <==> (method@ == "OPTIONS"@ && (url@ == "/signup"@ || url@
            == "/login"@ || url@ == "/get_user"@)),
{
    proof {
        reveal_strlit("OPTIONS");
        reveal_strlit("GET");
        reveal_strlit("POST");
        reveal_strlit("/");
        reveal_strlit("/user-list");
        reveal_strlit("/signup");
        reveal_strlit("/login");
        reveal_strlit("/get_user");
        assert("GET"@.len() == 3 && "POST"@.len() == 4 && "OPTIONS"@.len() == 7);
        assert("/"@.len() == 1 && "/user-list"@.len() == 10 && "/signup"@.len() == 7 && "/login"@.len() == 6
            && "/get_user"@.len() == 9);
    }
    if str_eq(method, "OPTIONS") {
        if str_eq(url, "/signup") || str_eq(url, "/login") || str_eq(url, "/get_user") {
            return Route::Preflight;
        }
        return Route::NotFound;
    }
    if str_eq(method, "GET") {
        if str_eq(url, "/") {
            return Route::Root;
        }
        if str_eq(url, "/user-list") {
            return Route::UserList;
        }
        return Route::NotFound;
    }
    if str_eq(method, "POST") {
        if str_eq(url, "/signup") {
            return Route::Signup;
        }
        if str_eq(url, "/login") {
            return Route::Login;
        }
        if str_eq(url, "/get_user") {
            return Route::GetUser;
        }
    }
    Route::NotFound
}

} // verus!
