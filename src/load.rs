use vstd::prelude::*;
use crate::chart::Endpoint;

verus! {

/// The three runs of the load generator against one endpoint: one to warm
/// the server up, one whose progress is shown to the operator, and the one
/// whose timings are kept.
#[derive(Debug, Clone, Copy, PartialEq, Eq, Structural)]
pub enum LoadPhase {
    Warmup,
    Display,
    Measure,
}

/// The load generator's output is captured (as CSV) in every phase but the
/// one shown to the operator.
pub open spec fn captures_spec(p: LoadPhase) -> bool {
    p != LoadPhase::Display
}

pub fn captures(p: LoadPhase) -> (r: bool)
    ensures
        r == captures_spec(p),
{
    match p {
        LoadPhase::Display => false,
        _ => true,
    }
}

pub open spec fn url_spec(e: Endpoint) -> Seq<char> {
    match e {
        Endpoint::Index => "http://127.0.0.1:3000/"@,
        Endpoint::Pattern => "http://127.0.0.1:3000/greeting/hello"@,
    }
}

/// Address of an endpoint on the benchmark port.
pub fn endpoint_url(e: Endpoint) -> (r: &'static str)
    ensures
        r@ == url_spec(e),
{
    match e {
        Endpoint::Index => "http://127.0.0.1:3000/",
        Endpoint::Pattern => "http://127.0.0.1:3000/greeting/hello",
    }
}

/// Arguments of the load generator for one phase: 50000 requests from 256
/// workers with a 10 s timeout, CSV output when captured, then the URL.
pub open spec fn load_args_spec(e: Endpoint, p: LoadPhase) -> Seq<Seq<char>> {
    let fixed = seq!["-n"@, "50000"@, "-c"@, "256"@, "-t"@, "10"@];
    if captures_spec(p) {
        fixed + seq!["-o"@, "csv"@, url_spec(e)]
    } else {
        fixed.push(url_spec(e))
    }
}

pub fn load_args(e: Endpoint, p: LoadPhase) -> (r: Vec<&'static str>)
    ensures
        r@.map_values(|s: &str| s@) == load_args_spec(e, p),
{
    let mut v: Vec<&'static str> = vec!["-n", "50000", "-c", "256", "-t", "10"];
    if captures(p) {
        v.push("-o");
        v.push("csv");
    }
    v.push(endpoint_url(e));
    assert(v@.map_values(|s: &str| s@) =~= load_args_spec(e, p));
    v
}

} // verus!
