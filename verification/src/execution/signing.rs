//! Request signing: the canonical query of a sorted parameter map and its
//! HMAC-SHA256 signature.
use crate::digest::{hex_lower, hmac_hex, hmac_sha256};
use crate::keyed::{key_of, lemma_sorted_unique, SortedMap};
use crate::text::{owned, u64_to_dec, utf8, dec_chars};
use vstd::prelude::*;

verus! {

#[derive(Debug, Clone, PartialEq, Eq)]
pub enum SigningError {
    EmptySecret,
    InvalidSecret,
}

/// `key=value`.
pub open spec fn pair_text(e: (String, String)) -> Seq<char> {
    e.0@ + "="@ + e.1@
}

/// The pairs joined by `&`, in order.
pub open spec fn query_text(entries: Seq<(String, String)>) -> Seq<char>
    decreases entries.len(),
{
    if entries.len() == 0 {
        Seq::empty()
    } else if entries.len() == 1 {
        pair_text(entries[0])
    } else {
        query_text(entries.drop_last()) + "&"@ + pair_text(entries.last())
    }
}

/// The parameters by key, values as text.
pub open spec fn param_view(params: SortedMap<String>) -> Map<Seq<u8>, Seq<char>> {
    params.as_map().map_values(|v: String| v@)
}

/// The lower-case hex HMAC-SHA256 signature of `query` under `secret`.
pub open spec fn signature_of(secret: Seq<char>, query: Seq<char>) -> Seq<char> {
    hex_lower(hmac_sha256(utf8(secret), utf8(query)))
}

/// The parameters joined as `key=value` pairs in ascending key order.
pub fn canonical_query(params: &SortedMap<String>) -> (r: String)
    ensures
        r@ == query_text(params.entries()),
{
    let mut out = String::new();
    let n = params.len();
    let mut i: usize = 0;
    while i < n
        invariant
            n == params.entries().len(),
            i <= n,
            out@ == query_text(params.entries().subrange(0, i as int)),
        decreases n - i,
    {
        let ghost pre = params.entries().subrange(0, i as int);
        let ghost next = params.entries().subrange(0, i + 1);
        proof {
            assert(next.drop_last() =~= pre);
            if i == 0 {
                assert(next.len() == 1);
            }
        }
        if i > 0 {
            out.append("&");
        }
        out.append(params.key_at(i).as_str());
        out.append("=");
        out.append(params.value_at(i).as_str());
        proof {
            assert(next.last() == params.entries()[i as int]);
            if i == 0 {
                assert(out@ =~= query_text(next));
            } else {
                assert(out@ =~= query_text(next));
            }
        }
        i = i + 1;
    }
    assert(params.entries().subrange(0, n as int) =~= params.entries());
    out
}

/// Signs the canonical query of `params`; an empty secret is refused.
pub fn sign_query(params: &SortedMap<String>, secret: &str) -> (r: Result<String, SigningError>)
    ensures
        secret@.len() == 0 ==> r == Err::<String, SigningError>(SigningError::EmptySecret),
        secret@.len() > 0 ==> (r matches Ok(s) && s@ == signature_of(secret@, query_text(params.entries()))),
        r matches Ok(s) ==> s@.len() == 64,
{
    if secret.is_empty() {
        return Err(SigningError::EmptySecret);
    }
    let payload = canonical_query(params);
    Ok(hmac_hex(secret.as_bytes(), payload.as_str().as_bytes()))
}

/// Adds the API key, timestamp and receive window to the parameters, then
/// their signature.
pub fn signed_params(
    params: SortedMap<String>,
    api_key: &str,
    secret: &str,
    timestamp_ms: u64,
    recv_window_ms: u64,
) -> (r: Result<SortedMap<String>, SigningError>)
    requires
        params.wf(),
    ensures
        secret@.len() == 0 ==> r == Err::<SortedMap<String>, SigningError>(SigningError::EmptySecret),
        secret@.len() > 0 ==> (r matches Ok(signed) && signed.wf() && exists|mid: SortedMap<String>| {
            &&& #[trigger] mid.wf()
            &&& param_view(mid) == param_view(params).insert(utf8("apiKey"@), api_key@).insert(
                utf8("timestamp"@),
                dec_chars(timestamp_ms as nat),
            ).insert(utf8("recvWindow"@), dec_chars(recv_window_ms as nat))
            &&& param_view(signed) == param_view(mid).insert(
                utf8("signature"@),
                signature_of(secret@, query_text(mid.entries())),
            )
            &&& signature_of(secret@, query_text(mid.entries())).len() == 64
        }),
{
    let mut params = params;
    let ghost v0 = param_view(params);
    params.insert(owned("apiKey"), owned(api_key));
    proof {
        assert(param_view(params) =~= v0.insert(utf8("apiKey"@), api_key@));
    }
    let ghost v1 = param_view(params);
    params.insert(owned("timestamp"), u64_to_dec(timestamp_ms));
    proof {
        assert(param_view(params) =~= v1.insert(utf8("timestamp"@), dec_chars(timestamp_ms as nat)));
    }
    let ghost v2 = param_view(params);
    params.insert(owned("recvWindow"), u64_to_dec(recv_window_ms));
    proof {
        assert(param_view(params) =~= v2.insert(utf8("recvWindow"@), dec_chars(recv_window_ms as nat)));
    }
    let ghost mid = params;
    let signature = match sign_query(&params, secret) {
        Ok(s) => s,
        Err(e) => {
            return Err(e);
        },
    };
    let ghost sig = signature@;
    params.insert(owned("signature"), signature);
    proof {
        assert(param_view(params) =~= param_view(mid).insert(utf8("signature"@), sig));
    }
    Ok(params)
}

/// Two well-formed parameter maps with the same keys and value texts have
/// the same canonical query: the query is a function of the parameters.
pub proof fn lemma_query_text_determined(a: SortedMap<String>, b: SortedMap<String>)
    requires
        a.wf(),
        b.wf(),
        param_view(a) == param_view(b),
    ensures
        query_text(a.entries()) == query_text(b.entries()),
{
    assert(a.keys().to_set() =~= param_view(a).dom());
    assert(b.keys().to_set() =~= param_view(b).dom());
    lemma_sorted_unique(a.keys(), b.keys());
    assert forall|i: int| 0 <= i < a.entries().len() implies a.entries()[i].0@ == b.entries()[i].0@
        && a.entries()[i].1@ == b.entries()[i].1@ by {
        a.lemma_entry_in_map(i);
        b.lemma_entry_in_map(i);
        assert(a.keys()[i] == b.keys()[i]);
        assert(utf8(a.entries()[i].0@) == utf8(b.entries()[i].0@));
        crate::text::lemma_utf8_injective(a.entries()[i].0@, b.entries()[i].0@);
        assert(param_view(a)[a.keys()[i]] == a.entries()[i].1@);
        assert(param_view(b)[b.keys()[i]] == b.entries()[i].1@);
    }
    lemma_query_text_pairwise(a.entries(), b.entries());
}

proof fn lemma_query_text_pairwise(a: Seq<(String, String)>, b: Seq<(String, String)>)
    requires
        a.len() == b.len(),
        forall|i: int| 0 <= i < a.len() ==> a[i].0@ == b[i].0@ && a[i].1@ == b[i].1@,
    ensures
        query_text(a) == query_text(b),
    decreases a.len(),
{
    if a.len() > 1 {
        lemma_query_text_pairwise(a.drop_last(), b.drop_last());
        assert(a.last() == a[a.len() - 1]);
        assert(b.last() == b[b.len() - 1]);
    }
}

} // verus!
