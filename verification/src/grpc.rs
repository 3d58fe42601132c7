//! Naming a remote procedure: `Service/Method`.

use crate::text::{chars_of, find_char, index_of, lemma_index_of, text_of_range};
use vstd::prelude::*;

verus! {

/// The service and the method that `call` names: what stands before and
/// after its only `/`, neither of them empty.
pub open spec fn service_method_of(call: Seq<char>) -> Option<(Seq<char>, Seq<char>)> {
    let slash = index_of(call, '/');
    if 0 < slash < call.len() - 1 && index_of(call.skip(slash + 1), '/') == call.len() - slash
        - 1 {
        Some((call.take(slash), call.skip(slash + 1)))
    } else {
        None
    }
}

/// The message for a call that names no service and method.
pub open spec fn invalid_call_message() -> Seq<char> {
    "Invalid service/method format. Expected 'Service/Method'"@
}

/// Splits `call` into the service and the method that it names.
pub fn split_service_method(call: &str) -> (r: Option<(String, String)>)
    ensures
        match r {
            Some((service, method)) => service_method_of(call@) == Some((service@, method@)),
            None => service_method_of(call@) is None,
        },
{
    let v = chars_of(call);
    let n: usize = v.len();
    let slash = find_char(&v, 0, n, '/');
    proof {
        assert(v@.subrange(0, n as int) =~= v@);
        lemma_index_of(v@, '/');
    }
    if slash == 0 || slash >= n || slash == n - 1 {
        return None;
    }
    let second = find_char(&v, slash + 1, n, '/');
    proof {
        assert(v@.skip(slash + 1) =~= v@.subrange(slash + 1, n as int));
        assert(v@.take(slash as int) =~= v@.subrange(0, slash as int));
    }
    if second != n - slash - 1 {
        return None;
    }
    Some((text_of_range(&v, 0, slash), text_of_range(&v, slash + 1, n)))
}

/// Whether `call` names a service and a method.
pub fn is_service_method(call: &str) -> (r: bool)
    ensures
        r == service_method_of(call@).is_some(),
{
    split_service_method(call).is_some()
}

/// The message for a call that names no service and method.
pub fn invalid_call_text() -> (r: String)
    ensures
        r@ == invalid_call_message(),
{
    "Invalid service/method format. Expected 'Service/Method'".to_string()
}

} // verus!
