//! Probabilistic reachability queries over the BCI graph, and the response
//! envelope that the C entry point writes into its caller's buffer.
use vstd::prelude::*;

verus! {

/// The message of the not-yet-available reachability computation.
pub open spec fn not_implemented_message() -> Seq<char> {
    "compute_reachability_prob not yet implemented"@
}

/// Compute reachability probabilities for a tenant profile, its
/// probabilistic edges and a query (all JSON text). The computation is not
/// available in this version: every call reports that it is not implemented.
pub fn compute_reachability_prob(tenant_profile_json: &str, probabilistic_edges_json: &str, query_json: &str) -> (r: Result<String, String>)
    ensures
        r matches Err(m) && m@ == not_implemented_message(),
{
    Err(String::from_str("compute_reachability_prob not yet implemented"))
}

/// `s` with every `"` preceded by a backslash.
pub open spec fn escape_quotes(s: Seq<char>) -> Seq<char>
    decreases s.len(),
{
    if s.len() == 0 {
        seq![]
    } else {
        let rest = escape_quotes(s.drop_last());
        if s.last() == '"' {
            rest + seq!['\\', '"']
        } else {
            rest.push(s.last())
        }
    }
}

/// `s` with every `"` preceded by a backslash.
pub fn escape_double_quotes(s: &str) -> (r: String)
    ensures
        r@ == escape_quotes(s@),
{
    let n = s.unicode_len();
    let mut r = String::new();
    let mut i: usize = 0;
    while i < n
        invariant
            n == s@.len(),
            i <= n,
            r@ == escape_quotes(s@.take(i as int)),
        decreases n - i,
    {
        proof {
            assert(s@.take(i + 1).drop_last() =~= s@.take(i as int));
        }
        let c = s.get_char(i);
        if c == '"' {
            crate::text::push_char(&mut r, '\\');
            crate::text::push_char(&mut r, '"');
        } else {
            crate::text::push_char(&mut r, c);
        }
        i = i + 1;
    }
    proof {
        assert(s@.take(n as int) =~= s@);
    }
    r
}

/// The error envelope for a failed computation with message `msg`.
pub open spec fn error_envelope(msg: Seq<char>) -> Seq<char> {
    "{\"ok\":false,\"error\":{\"code\":\"INTERNAL\",\"message\":\""@ + escape_quotes(msg) + "\"},\"data\":null}"@
}

/// The response JSON for a computation result: the result itself on
/// success, the error envelope otherwise.
pub open spec fn response_json(result: Result<String, String>) -> Seq<char> {
    match result {
        Ok(s) => s@,
        Err(m) => error_envelope(m@),
    }
}

/// The JSON response for a query: the computed result, or an error envelope
/// carrying the failure message with its quotes escaped.
pub fn reachability_response(tenant_profile_json: &str, probabilistic_edges_json: &str, query_json: &str) -> (r: String)
    ensures
        r@ == error_envelope(not_implemented_message()),
{
    match compute_reachability_prob(tenant_profile_json, probabilistic_edges_json, query_json) {
        Ok(s) => s,
        Err(msg) => {
            let mut out = String::from_str("{\"ok\":false,\"error\":{\"code\":\"INTERNAL\",\"message\":\"");
            let escaped = escape_double_quotes(msg.as_str());
            out.append(escaped.as_str());
            out.append("\"},\"data\":null}");
            out
        },
    }
}

/// Whether `s` holds a NUL character.
pub fn has_nul(s: &str) -> (r: bool)
    ensures
        r == s@.contains('\0'),
{
    let n = s.unicode_len();
    let mut i: usize = 0;
    while i < n
        invariant
            n == s@.len(),
            i <= n,
            forall|k: int| 0 <= k < i ==> s@[k] != '\0',
        decreases n - i,
    {
        if s.get_char(i) == '\0' {
            return true;
        }
        i = i + 1;
    }
    false
}

/// The outcome of the C entry point once its three arguments were read as
/// UTF-8: the bytes to copy (the response and a terminating NUL), or the
/// status code. A response holding a NUL cannot be passed as a C string
/// (`-4`); a response whose bytes and terminating NUL do not fit in the
/// buffer capacity is refused (`-5`), a negative capacity included.
pub fn reachability_output(response: &str, out_cap: i32) -> (r: Result<Vec<u8>, i32>)
    requires
        vstd::utf8::encode_utf8(response@).len() < usize::MAX,
    ensures
        response@.contains('\0') ==> r == Err::<Vec<u8>, i32>(-4i32),
        !response@.contains('\0') ==> {
            let bytes = vstd::utf8::encode_utf8(response@);
            let n = bytes.len() + 1;
            &&& n > out_cap ==> r == Err::<Vec<u8>, i32>(-5i32)
            &&& n <= out_cap ==> (r matches Ok(b) && b@ == bytes.push(0u8))
        },
{
    if has_nul(response) {
        return Err(-4);
    }
    let bytes = response.as_bytes();
    let n = bytes.len();
    let total = n + 1;
    if out_cap < 0 || total > out_cap as usize {
        return Err(-5);
    }
    let mut out: Vec<u8> = Vec::new();
    let mut i: usize = 0;
    while i < n
        invariant
            i <= n,
            n == bytes@.len(),
            out@ == bytes@.take(i as int),
        decreases n - i,
    {
        out.push(bytes[i]);
        i = i + 1;
        proof {
            assert(out@ =~= bytes@.take(i as int));
        }
    }
    out.push(0u8);
    proof {
        assert(bytes@.take(n as int) =~= bytes@);
    }
    Ok(out)
}

} // verus!
