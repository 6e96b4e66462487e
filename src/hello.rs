use vstd::prelude::*;
use crate::text::text_eq;

verus! {

/// Status and body of a reply of a benchmarked server.
pub struct Reply {
    pub status: u16,
    pub body: String,
}

/// Body of `GET /` on the Rocket server.
pub fn index() -> (r: &'static str)
    ensures
        r@ == "Hello, world!"@,
{
    "Hello, world!"
}

/// Body of `GET /greeting/<name>`.
pub fn greeting(name: &str) -> (r: String)
    ensures
        r@ == "Hello, "@ + name@,
{
    let mut s = String::from_str("Hello, ");
    s.append(name);
    s
}

pub open spec fn is_lower(c: char) -> bool {
    'a' <= c && c <= 'z'
}

/// The name in a path of the form `/greeting/<name>` where the name is one
/// or more lowercase ASCII letters.
pub open spec fn greeting_name(p: Seq<char>) -> Option<Seq<char>> {
    if p.len() > 10 && p.subrange(0, 10) == "/greeting/"@ && forall|i: int|
        10 <= i < p.len() ==> is_lower(#[trigger] p[i]) {
        Some(p.subrange(10, p.len() as int))
    } else {
        None
    }
}

fn greeting_path_name(path: &str) -> (r: Option<&str>)
    ensures
        match r {
            Some(n) => greeting_name(path@) == Some(n@),
            None => greeting_name(path@) is None,
        },
{
    let prefix = "/greeting/";
    proof {
        reveal_strlit("/greeting/");
    }
    let n = path.unicode_len();
    if n <= 10 {
        return None;
    }
    let mut i: usize = 0;
    while i < 10
        invariant
            i <= 10,
            n == path@.len(),
            n > 10,
            prefix@ == "/greeting/"@,
            prefix@.len() == 10,
            forall|k: int| 0 <= k < i ==> path@[k] == prefix@[k],
        decreases 10 - i,
    {
        if path.get_char(i) != prefix.get_char(i) {
            assert(path@.subrange(0, 10)[i as int] != prefix@[i as int]);
            return None;
        }
        i = i + 1;
    }
    assert(path@.subrange(0, 10) =~= "/greeting/"@);
    while i < n
        invariant
            10 <= i <= n,
            n == path@.len(),
            forall|k: int| 10 <= k < i ==> is_lower(#[trigger] path@[k]),
        decreases n - i,
    {
        let c = path.get_char(i);
        if !('a' <= c && c <= 'z') {
            assert(!is_lower(path@[i as int]));
            return None;
        }
        i = i + 1;
    }
    Some(path.substring_char(10, n))
}

/// Routing of the hyper servers: `/` greets the world, `/greeting/<name>`
/// greets the name, any other path is not found.
pub fn hello_world(path: &str) -> (r: Reply)
    ensures
        path@ == "/"@ ==> r.status == 200 && r.body@ == "Hello World!"@,
        path@ != "/"@ && greeting_name(path@) is Some ==> r.status == 200 && r.body@ == "Hello, "@
            + greeting_name(path@)->0,
        path@ != "/"@ && greeting_name(path@) is None ==> r.status == 404 && r.body@
            == "404 Not Found\n"@,
{
    if text_eq(path, "/") {
        return Reply { status: 200, body: String::from_str("Hello World!") };
    }
    match greeting_path_name(path) {
        Some(name) => Reply { status: 200, body: greeting(name) },
        None => Reply { status: 404, body: String::from_str("404 Not Found\n") },
    }
}

/// Reply of the warp server to a rejected request.
pub fn handle_not_found(is_not_found: bool) -> (r: Reply)
    ensures
        is_not_found ==> r.status == 404 && r.body@ == "NOT_FOUND"@,
        !is_not_found ==> r.status == 500 && r.body@ == "INTERNAL_SERVER_ERROR"@,
{
    if is_not_found {
        Reply { status: 404, body: String::from_str("NOT_FOUND") }
    } else {
        Reply { status: 500, body: String::from_str("INTERNAL_SERVER_ERROR") }
    }
}

} // verus!
