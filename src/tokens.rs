//! Token counting through a Hugging Face tokenizer, and prefix search.

use tokenizers::Tokenizer;
use vstd::prelude::*;
use vstd::string::*;

verus! {

#[verifier::external_type_specification]
#[verifier::external_body]
pub struct ExTokenizer(Tokenizer);

/// Relies on tokenizers::Tokenizer::from_pretrained: fetches (or reads from
/// the local hub cache) the tokenizer published under `model_name`.
#[verifier::external_body]
fn load_tokenizer(model_name: &str) -> (r: Result<Tokenizer, String>) {
    match Tokenizer::from_pretrained(model_name, None) {
        Ok(t) => Ok(t),
        Err(e) => Err(format!("Failed to load tokenizer for '{}': {}", model_name, e)),
    }
}

/// Relies on tokenizers::Tokenizer::encode (without special tokens): the ids
/// of the encoding of `text`.
#[verifier::external_body]
pub(crate) fn encode_ids(tokenizer: &Tokenizer, text: &str) -> (r: Result<Vec<u32>, String>) {
    match tokenizer.encode(text, false) {
        Ok(enc) => Ok(enc.get_ids().to_vec()),
        Err(e) => Err(format!("Tokenization error: {}", e)),
    }
}

/// Relies on tokenizers::Tokenizer::encode_batch (without special tokens):
/// one encoding per input, in input order.
#[verifier::external_body]
pub(crate) fn encode_batch_ids(tokenizer: &Tokenizer, texts: Vec<String>) -> (r: Result<
    Vec<Vec<u32>>,
    String,
>)
    ensures
        r matches Ok(v) ==> v@.len() == texts@.len(),
{
    match tokenizer.encode_batch(texts, false) {
        Ok(encs) => Ok(encs.iter().map(|e| e.get_ids().to_vec()).collect()),
        Err(e) => Err(format!("Tokenization error: {}", e)),
    }
}

/// Relies on tokenizers::Tokenizer::decode (keeping special tokens): the
/// text of the given token ids.
#[verifier::external_body]
pub(crate) fn decode_ids(tokenizer: &Tokenizer, ids: &[u32]) -> (r: Result<String, String>) {
    match tokenizer.decode(ids, false) {
        Ok(s) => Ok(s),
        Err(e) => Err(format!("Detokenization error: {}", e)),
    }
}

/// Loads the tokenizer published under `model_name`. Whether that succeeds
/// depends on the network and the local hub cache.
pub fn get_tokenizer(model_name: &str) -> (r: Result<Tokenizer, String>) {
    load_tokenizer(model_name)
}

/// Counts the tokens of `text` with an already loaded tokenizer.
pub fn count_with(tokenizer: &Tokenizer, text: &str) -> (r: Result<u32, String>) {
    match encode_ids(tokenizer, text) {
        Ok(ids) => {
            if ids.len() <= u32::MAX as usize {
                Ok(ids.len() as u32)
            } else {
                Err(String::from_str("token count does not fit in 32 bits"))
            }
        },
        Err(e) => Err(e),
    }
}

/// Counts the tokens of `text` with the tokenizer of `model_name`.
pub fn count_tokens(text: &str, model_name: &str) -> (r: Result<u32, String>) {
    match get_tokenizer(model_name) {
        Ok(t) => count_with(&t, text),
        Err(e) => Err(e),
    }
}

/// Some call of `f` on a string `s` answered `Ok(answer)`.
pub open spec fn answered<F: Fn(&str) -> Result<bool, String>>(
    f: F,
    s: Seq<char>,
    answer: bool,
) -> bool {
    exists|p: &str| p@ == s && #[trigger] f.ensures((p,), Ok::<bool, String>(answer))
}

/// Some call of `f` failed with the error `e`.
pub open spec fn failed_on<F: Fn(&str) -> Result<bool, String>>(f: F, e: String) -> bool {
    exists|p: &str| #[trigger] f.ensures((p,), Err::<bool, String>(e))
}

/// `k` is where a binary search over the prefixes of `t` stops: the whole of
/// `t` when it is accepted, else a prefix that is accepted (or empty) whose
/// one-longer prefix is refused.
pub open spec fn prefix_bound<F: Fn(&str) -> Result<bool, String>>(
    f: F,
    t: Seq<char>,
    k: int,
) -> bool {
    &&& 0 <= k <= t.len()
    &&& k == t.len() ==> t.len() == 0 || answered(f, t, true)
    &&& 0 < k < t.len() ==> answered(f, t.take(k), true) && answered(f, t.take(k + 1), false)
    &&& k == 0 < t.len() ==> answered(f, t.take(0), false) || answered(f, t.take(1), false)
}

/// Finds, by binary search, the number of leading characters of `text` that
/// `is_within_limit` still accepts. For a predicate that holds of all short
/// prefixes and of no long ones this is the length of the longest accepted
/// prefix.
pub fn find_largest_prefix_index<F: Fn(&str) -> Result<bool, String>>(
    text: &str,
    is_within_limit: F,
) -> (r: Result<usize, String>)
    requires
        forall|p: &str| #[trigger] is_within_limit.requires((p,)),
    ensures
        text@.len() == 0 ==> r == Ok::<usize, String>(0),
        r matches Ok(k) ==> prefix_bound(is_within_limit, text@, k as int),
        r matches Err(e) ==> failed_on(is_within_limit, e),
        (forall|p: &str, a: Result<bool, String>| #[trigger]
            is_within_limit.ensures((p,), a) ==> a is Ok) ==> r is Ok,
{
    let n = text.unicode_len();
    if n == 0 {
        return Ok(0);
    }
    match is_within_limit(text) {
        Err(e) => {
            proof {
                assert(is_within_limit.ensures((text,), Err::<bool, String>(e)));
                assert(failed_on(is_within_limit, e));
            }
            return Err(e);
        },
        Ok(true) => {
            return Ok(n);
        },
        Ok(false) => {},
    }
    proof {
        assert(text@.take(n as int) =~= text@);
    }
    let mut low: usize = 0;
    let mut high: usize = n;
    while low < high
        invariant
            n == text@.len(),
            0 <= low <= high <= n,
            low > 0 ==> answered(is_within_limit, text@.take(low - 1), true),
            answered(is_within_limit, text@.take(high as int), false),
            forall|p: &str| #[trigger] is_within_limit.requires((p,)),
        decreases high - low,
    {
        let mid = low + (high - low) / 2;
        let prefix = text.substring_char(0, mid);
        match is_within_limit(prefix) {
            Err(e) => {
                proof {
                    assert(is_within_limit.ensures((prefix,), Err::<bool, String>(e)));
                    assert(failed_on(is_within_limit, e));
                }
                return Err(e);
            },
            Ok(true) => {
                proof {
                    assert(prefix@ =~= text@.take((mid + 1) - 1));
                }
                low = mid + 1;
            },
            Ok(false) => {
                proof {
                    assert(prefix@ =~= text@.take(mid as int));
                }
                high = mid;
            },
        }
    }
    if low > 0 {
        Ok(low - 1)
    } else {
        Ok(0)
    }
}

} // verus!

verus! {

/// Some call of `count` on `s` answered a count that is (`within`) or is not
/// (`!within`) at most `max`.
pub open spec fn counted<C: Fn(&str) -> Result<u32, String>>(
    count: C,
    s: Seq<char>,
    max: u32,
    within: bool,
) -> bool {
    exists|p: &str, c: u32|
        p@ == s && #[trigger] count.ensures((p,), Ok::<u32, String>(c)) && (c <= max) == within
}

/// `s` is a prefix of `t` that a prefix search with `count` can stop at: all
/// of `t` when it counts at most `max` tokens, else an accepted prefix (or
/// the empty one) whose one-longer prefix counts more.
pub open spec fn truncation_of<C: Fn(&str) -> Result<u32, String>>(
    count: C,
    t: Seq<char>,
    max: u32,
    s: Seq<char>,
) -> bool {
    let k = s.len() as int;
    &&& s == t.take(k)
    &&& k == t.len() && t.len() > 0 && max > 0 ==> counted(count, t, max, true)
    &&& 0 < k < t.len() ==> counted(count, s, max, true) && counted(count, t.take(k + 1), max, false)
    &&& k == 0 < t.len() && max > 0 ==> counted(count, t.take(0), max, false) || counted(
        count,
        t.take(1),
        max,
        false,
    )
}

/// Every call of `count` on `text` succeeds with at most `max` tokens.
pub open spec fn fits_whole<C: Fn(&str) -> Result<u32, String>>(count: C, text: &str, max: u32) -> bool {
    forall|a: Result<u32, String>| #[trigger] count.ensures((text,), a) ==> (a matches Ok(c) && c <= max)
}

/// Truncates `text` to a prefix that `count` says is at most `max_tokens`
/// tokens long, searching the prefixes by their character length.
pub fn truncate_with_counter<C: Fn(&str) -> Result<u32, String> + Copy>(
    text: &str,
    max_tokens: u32,
    count: C,
) -> (r: Result<String, String>)
    requires
        forall|p: &str| #[trigger] count.requires((p,)),
    ensures
        text@.len() == 0 || max_tokens == 0 ==> (r matches Ok(s) && s@.len() == 0),
        r matches Ok(s) ==> truncation_of(count, text@, max_tokens, s@),
        (forall|p: &str, a: Result<u32, String>| #[trigger] count.ensures((p,), a) ==> a is Ok)
            ==> r is Ok,
        max_tokens > 0 && fits_whole(count, text, max_tokens) ==> (r matches Ok(s) && s@ == text@),
{
    if text.unicode_len() == 0 || max_tokens == 0 {
        let empty = String::new();
        proof {
            assert(empty@ =~= text@.take(0));
        }
        return Ok(empty);
    }
    let total = match count(text) {
        Ok(c) => c,
        Err(e) => {
            return Err(e);
        },
    };
    if total <= max_tokens {
        proof {
            assert(count.ensures((text,), Ok::<u32, String>(total)));
            assert(text@.take(text@.len() as int) =~= text@);
        }
        return Ok(String::from_str(text));
    }
    let within = |p: &str| -> (a: Result<bool, String>)
        requires
            count.requires((p,)),
        ensures
            a matches Ok(b) ==> counted(count, p@, max_tokens, b),
            a matches Err(e) ==> count.ensures((p,), Err::<u32, String>(e)),
        {
            match count(p) {
                Ok(c) => {
                    proof {
                        assert(count.ensures((p,), Ok::<u32, String>(c)));
                    }
                    Ok(c <= max_tokens)
                },
                Err(e) => Err(e),
            }
        };
    let k = match find_largest_prefix_index(text, within) {
        Ok(k) => k,
        Err(e) => {
            proof {
                let p = choose|p: &str| #[trigger] within.ensures((p,), Err::<bool, String>(e));
                assert(count.ensures((p,), Err::<u32, String>(e)));
            }
            return Err(e);
        },
    };
    proof {
        if k == text@.len() {
            let p = choose|p: &str| p@ == text@ && #[trigger] within.ensures((p,), Ok::<bool, String>(true));
        }
        if 0 < k < text@.len() {
            let p = choose|p: &str| p@ == text@.take(k as int) && #[trigger] within.ensures((p,), Ok::<bool, String>(true));
            let q = choose|p: &str| p@ == text@.take(k + 1) && #[trigger] within.ensures((p,), Ok::<bool, String>(false));
        }
        if k == 0 {
            if answered(within, text@.take(0), false) {
                let p = choose|p: &str| p@ == text@.take(0) && #[trigger] within.ensures((p,), Ok::<bool, String>(false));
            } else {
                let p = choose|p: &str| p@ == text@.take(1) && #[trigger] within.ensures((p,), Ok::<bool, String>(false));
            }
        }
    }
    let prefix = text.substring_char(0, k);
    let s = String::from_str(prefix);
    proof {
        assert(s@ =~= text@.take(k as int));
    }
    Ok(s)
}

/// Truncates `text` to at most `max_tokens` tokens of the tokenizer of
/// `model_name`, cutting at a character boundary.
pub fn truncate_to_token_count(text: &str, max_tokens: u32, model_name: &str) -> (r: Result<
    String,
    String,
>)
    ensures
        text@.len() == 0 || max_tokens == 0 ==> (r matches Ok(s) && s@.len() == 0),
        r matches Ok(s) ==> s@ == text@.take(s@.len() as int),
{
    if text.unicode_len() == 0 || max_tokens == 0 {
        return Ok(String::new());
    }
    let tokenizer = match get_tokenizer(model_name) {
        Ok(t) => t,
        Err(e) => {
            return Err(e);
        },
    };
    truncate_with_counter(text, max_tokens, |p: &str| count_with(&tokenizer, p))
}

} // verus!
