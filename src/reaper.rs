use vstd::prelude::*;
use crate::errors::SuiteError;
use crate::samples::{field_run_end, lemma_run_end_bounds, run_end};
use crate::text::{all_digits, digits_value, is_digit, parse_digits};

verus! {

pub open spec fn port_query_args_spec() -> Seq<Seq<char>> {
    seq!["-Fp"@, "-i"@, ":3000"@]
}

/// Arguments of the port query (`lsof`): list, as fields, the process ids of
/// whatever has a socket on the benchmark port.
pub fn port_query_args() -> (r: Vec<&'static str>)
    ensures
        r@.map_values(|s: &str| s@) == port_query_args_spec(),
{
    let v: Vec<&'static str> = vec!["-Fp", "-i", ":3000"];
    assert(v@.map_values(|s: &str| s@) =~= port_query_args_spec());
    v
}

/// `i` starts a process record of the port query's field output: `p`
/// followed by a digit.
pub open spec fn is_pid_tag(o: Seq<u8>, i: int) -> bool {
    &&& 0 <= i
    &&& i + 1 < o.len()
    &&& o[i] == 112
    &&& is_digit(o[i + 1])
}

pub open spec fn is_first_pid_tag(o: Seq<u8>, i: int) -> bool {
    &&& is_pid_tag(o, i)
    &&& forall|j: int| 0 <= j < i ==> !is_pid_tag(o, j)
}

/// The process that the port query reports: the digits after the first
/// `p` that a digit follows; `Ok(None)` when there is none, `BadPid` when
/// the number does not fit in a `u32`.
pub open spec fn listener_spec(o: Seq<u8>) -> Result<Option<u32>, SuiteError> {
    if exists|i: int| is_first_pid_tag(o, i) {
        let i = choose|i: int| is_first_pid_tag(o, i);
        let d = o.subrange(i + 1, run_end(o, i + 1, true));
        if digits_value(d) <= u32::MAX {
            Ok(Some(digits_value(d) as u32))
        } else {
            Err(SuiteError::BadPid)
        }
    } else {
        Ok(None)
    }
}

/// Finds the process that still holds the benchmark port in the output of
/// the port query, so that it can be killed.
pub fn listener_pid(output: &[u8]) -> (r: Result<Option<u32>, SuiteError>)
    ensures
        r == listener_spec(output@),
{
    let mut i: usize = 0;
    while i < output.len() && i + 1 < output.len()
        invariant
            i <= output@.len(),
            forall|j: int| 0 <= j < i ==> !is_pid_tag(output@, j),
        decreases output.len() - i,
    {
        if output[i] == 112 && 48 <= output[i + 1] && output[i + 1] <= 57 {
            proof {
                assert forall|j: int| is_first_pid_tag(output@, j) implies j == i by {
                    if j > i {
                        assert(is_pid_tag(output@, i as int));
                    }
                }
                lemma_run_end_bounds(output@, i as int + 1, true);
                assert(is_first_pid_tag(output@, i as int));
            }
            let e = field_run_end(output, i + 1, true);
            let d = vstd::slice::slice_subrange(output, i + 1, e);
            proof {
                assert forall|k: int| 0 <= k < d@.len() implies is_digit(#[trigger] d@[k]) by {
                    lemma_run_prefix(output@, i as int + 1, k + i + 1);
                }
                assert(all_digits(d@));
                assert(d@ == output@.subrange(i as int + 1, run_end(output@, i as int + 1, true)));
            }
            return match parse_digits(d) {
                Some(v) => {
                    if v <= u32::MAX as u64 {
                        Ok(Some(v as u32))
                    } else {
                        Err(SuiteError::BadPid)
                    }
                },
                None => Err(SuiteError::BadPid),
            };
        }
        i = i + 1;
    }
    proof {
        assert forall|j: int| !is_first_pid_tag(output@, j) by {
            if is_first_pid_tag(output@, j) {
                assert(j + 1 < output@.len());
                assert(j < i);
                assert(!is_pid_tag(output@, j));
            }
        }
    }
    Ok(None)
}

/// Every byte before the end of a run of digits is a digit.
proof fn lemma_run_prefix(o: Seq<u8>, i: int, k: int)
    requires
        0 <= i <= k < run_end(o, i, true),
        i <= o.len(),
    ensures
        is_digit(o[k]),
    decreases k - i,
{
    if k > i {
        assert(is_digit(o[i]));
        lemma_run_prefix(o, i + 1, k);
    }
}

} // verus!
