//! Prompt synthesis: prompts of a target token length cut from the
//! pre-tokenized corpus.

use crate::tokens::{decode_ids, encode_batch_ids};
use rand::Rng;
use tokenizers::Tokenizer;
use vstd::prelude::*;
use vstd::string::*;

verus! {

/// Most characters handed to the tokenizer in one piece of the corpus.
pub const CHUNK_CHARS: usize = 10000;

/// The distributions of prompt and output lengths, in tokens.
#[derive(Clone, Copy, Debug, PartialEq, Eq, Structural)]
pub struct PromptConfig {
    pub mean_input_tokens: u32,
    pub stddev_input_tokens: u32,
    /// `None` leaves the output length to the server.
    pub mean_output_tokens: Option<u32>,
    pub stddev_output_tokens: u32,
}

/// What a draw from `Normal(mean, stddev)`, rounded up to `draw`, gives: the
/// mean itself (at least 1) when the deviation is zero, else the draw when it
/// is at least 1, else nothing (draw again).
pub open spec fn length_target_spec(mean: u32, stddev: u32, draw: i64) -> Option<u32> {
    if stddev == 0 {
        Some(if mean >= 1 { mean } else { 1 })
    } else if 1 <= draw <= u32::MAX {
        Some(draw as u32)
    } else {
        None
    }
}

/// Accepts or rejects one rounded-up draw of a length distribution.
pub fn length_target(mean: u32, stddev: u32, draw: i64) -> (r: Option<u32>)
    ensures
        r == length_target_spec(mean, stddev, draw),
{
    if stddev == 0 {
        Some(if mean >= 1 { mean } else { 1 })
    } else if 1 <= draw && draw <= u32::MAX as i64 {
        Some(draw as u32)
    } else {
        None
    }
}

/// The output cap that one rounded-up draw gives: none at all when output
/// shaping is off, else the draw as `length_target` takes it (`None`: draw
/// again).
pub open spec fn output_cap_spec(config: PromptConfig, draw: i64) -> Option<Option<u32>> {
    match config.mean_output_tokens {
        None => Some(None),
        Some(m) => match length_target_spec(m, config.stddev_output_tokens, draw) {
            Some(n) => Some(Some(n)),
            None => None,
        },
    }
}

/// Decides the output cap of one request from a rounded-up draw of the
/// output length distribution; the draw is ignored when shaping is off.
pub fn output_cap(config: &PromptConfig, draw: i64) -> (r: Option<Option<u32>>)
    ensures
        r == output_cap_spec(*config, draw),
        config.mean_output_tokens is None ==> r == Some(None::<u32>),
{
    match config.mean_output_tokens {
        None => Some(None),
        Some(m) => match length_target(m, config.stddev_output_tokens, draw) {
            Some(n) => Some(Some(n)),
            None => None,
        },
    }
}

pub open spec fn concat_all(ps: Seq<Seq<char>>) -> Seq<char>
    decreases ps.len(),
{
    if ps.len() == 0 {
        Seq::empty()
    } else {
        concat_all(ps.drop_last()) + ps.last()
    }
}

pub open spec fn concat_ids(ps: Seq<Vec<u32>>) -> Seq<u32>
    decreases ps.len(),
{
    if ps.len() == 0 {
        Seq::empty()
    } else {
        concat_ids(ps.drop_last()) + ps.last()@
    }
}

/// Cuts `text` into consecutive pieces of at most `max_chars` characters.
pub fn corpus_chunks(text: &str, max_chars: usize) -> (r: Vec<String>)
    requires
        max_chars > 0,
    ensures
        concat_all(r@.map_values(|s: String| s@)) == text@,
        forall|k: int| 0 <= k < r@.len() ==> 0 < (#[trigger] r@[k])@.len() <= max_chars,
{
    let n = text.unicode_len();
    let mut out: Vec<String> = Vec::new();
    let mut i: usize = 0;
    while i < n
        invariant
            n == text@.len(),
            max_chars > 0,
            0 <= i <= n,
            concat_all(out@.map_values(|s: String| s@)) == text@.take(i as int),
            forall|k: int| 0 <= k < out@.len() ==> 0 < (#[trigger] out@[k])@.len() <= max_chars,
        decreases n - i,
    {
        let end = if n - i > max_chars {
            i + max_chars
        } else {
            n
        };
        let piece = String::from_str(text.substring_char(i, end));
        let ghost before = out@;
        out.push(piece);
        proof {
            let vs = out@.map_values(|s: String| s@);
            assert(vs.drop_last() =~= before.map_values(|s: String| s@));
            assert(text@.take(end as int) =~= text@.take(i as int) + piece@);
        }
        i = end;
    }
    proof {
        assert(text@.take(n as int) =~= text@);
    }
    out
}

/// Joins the token ids of the encoded chunks, in order, into one stream.
pub fn join_encodings(encoded: &Vec<Vec<u32>>) -> (r: Vec<u32>)
    ensures
        r@ == concat_ids(encoded@),
{
    let mut ids: Vec<u32> = Vec::new();
    let mut k: usize = 0;
    while k < encoded.len()
        invariant
            0 <= k <= encoded@.len(),
            ids@ == concat_ids(encoded@.take(k as int)),
        decreases encoded@.len() - k,
    {
        let piece = &encoded[k];
        let mut j: usize = 0;
        let ghost start = ids@;
        while j < piece.len()
            invariant
                0 <= j <= piece@.len(),
                ids@ == start + piece@.take(j as int),
            decreases piece@.len() - j,
        {
            ids.push(piece[j]);
            proof {
                assert(ids@ =~= start + piece@.take(j + 1));
            }
            j = j + 1;
        }
        proof {
            assert(encoded@.take(k + 1).drop_last() =~= encoded@.take(k as int));
            assert(piece@.take(j as int) =~= piece@);
        }
        k = k + 1;
    }
    proof {
        assert(encoded@.take(k as int) =~= encoded@);
    }
    ids
}

/// Encodes the corpus in one batch of chunks (see `corpus_chunks`) and joins
/// what the tokenizer returns with `join_encodings`. An empty corpus gives no
/// ids.
pub fn build_corpus(tokenizer: &Tokenizer, text: &str) -> (r: Result<Vec<u32>, String>)
    ensures
        text@.len() == 0 ==> (r matches Ok(ids) ==> ids@.len() == 0),
{
    let chunks = corpus_chunks(text, CHUNK_CHARS);
    proof {
        if text@.len() == 0 && chunks@.len() > 0 {
            assert(concat_all(chunks@.map_values(|s: String| s@)).len() >= chunks@.last()@.len())
                by {
                let vs = chunks@.map_values(|s: String| s@);
                assert(vs.last() == chunks@.last()@);
            }
        }
    }
    let encoded = match encode_batch_ids(tokenizer, chunks) {
        Ok(e) => e,
        Err(e) => {
            return Err(e);
        },
    };
    let ids = join_encodings(&encoded);
    proof {
        if encoded@.len() == 0 {
            assert(encoded@ =~= Seq::<Vec<u32>>::empty());
        }
    }
    Ok(ids)
}

proof fn lemma_mod_succ(a: int, n: int)
    requires
        a >= 0,
        n > 0,
    ensures
        (a + 1) % n == if a % n + 1 == n {
            0
        } else {
            a % n + 1
        },
{
    vstd::arithmetic::div_mod::lemma_fundamental_div_mod(a, n);
    vstd::arithmetic::div_mod::lemma_fundamental_div_mod(a + 1, n);
    let q = a / n;
    let r = a % n;
    if r + 1 == n {
        assert(a + 1 == (q + 1) * n) by (nonlinear_arith)
            requires
                a == n * q + r,
                r + 1 == n,
        ;
        vstd::arithmetic::div_mod::lemma_mod_multiples_basic(q + 1, n);
    } else {
        vstd::arithmetic::div_mod::lemma_mod_add_multiples_vanish(r + 1, n);
        assert(a + 1 == n * q + (r + 1));
        vstd::arithmetic::div_mod::lemma_mod_multiples_vanish(q, r + 1, n);
        vstd::arithmetic::div_mod::lemma_small_mod((r + 1) as nat, n as nat);
    }
}

/// Takes `len` token ids from the corpus, starting at `start` and wrapping
/// around its end.
pub fn sample_window(corpus: &Vec<u32>, start: usize, len: usize) -> (r: Vec<u32>)
    requires
        corpus@.len() > 0,
        start < corpus@.len(),
    ensures
        r@.len() == len,
        forall|i: int| 0 <= i < len ==> #[trigger] r@[i] == corpus@[(start + i) % (corpus@.len() as int)],
{
    let n = corpus.len();
    let mut out: Vec<u32> = Vec::new();
    let mut pos = start;
    let mut i: usize = 0;
    proof {
        vstd::arithmetic::div_mod::lemma_small_mod(start as nat, n as nat);
    }
    while i < len
        invariant
            n == corpus@.len(),
            n > 0,
            0 <= i <= len,
            pos < n,
            pos == (start + i) % (n as int),
            out@.len() == i,
            forall|k: int| 0 <= k < i ==> #[trigger] out@[k] == corpus@[(start + k) % (n as int)],
        decreases len - i,
    {
        out.push(corpus[pos]);
        proof {
            lemma_mod_succ(start + i, n as int);
        }
        pos = if pos + 1 == n {
            0
        } else {
            pos + 1
        };
        i = i + 1;
    }
    out
}

/// Relies on rand::Rng::random_range with the thread-local generator: a
/// uniformly drawn index below `n`.
#[verifier::external_body]
fn random_index(n: usize) -> (r: usize)
    requires
        n > 0,
    ensures
        r < n,
{
    rand::rng().random_range(0..n)
}

/// A prompt of `input_tokens` tokens: a window of the corpus at a random
/// offset, decoded back to text. An empty corpus is an error.
pub fn generate_prompt(tokenizer: &Tokenizer, corpus: &Vec<u32>, input_tokens: u32) -> (r: Result<
    String,
    String,
>)
    ensures
        corpus@.len() == 0 ==> r is Err,
{
    if corpus.len() == 0 {
        return Err(String::from_str("the prompt corpus encodes to no tokens"));
    }
    let start = random_index(corpus.len());
    let window = sample_window(corpus, start, input_tokens as usize);
    decode_ids(tokenizer, window.as_slice())
}

/// The prompt plan: one prompt per request, of the drawn input length, with
/// the drawn output cap carried alongside, in request order.
pub fn build_prompt_plan(
    tokenizer: &Tokenizer,
    corpus: &Vec<u32>,
    lengths: &Vec<(u32, Option<u32>)>,
) -> (r: Result<Vec<(String, Option<u32>)>, String>)
    ensures
        corpus@.len() == 0 && lengths@.len() > 0 ==> r is Err,
        r matches Ok(plan) ==> plan@.len() == lengths@.len() && forall|i: int|
            0 <= i < lengths@.len() ==> (#[trigger] plan@[i]).1 == lengths@[i].1,
{
    let mut plan: Vec<(String, Option<u32>)> = Vec::new();
    let mut i: usize = 0;
    while i < lengths.len()
        invariant
            0 <= i <= lengths@.len(),
            plan@.len() == i,
            forall|k: int| 0 <= k < i ==> (#[trigger] plan@[k]).1 == lengths@[k].1,
            corpus@.len() == 0 ==> i == 0,
        decreases lengths@.len() - i,
    {
        let (input, output) = lengths[i];
        let prompt = match generate_prompt(tokenizer, corpus, input) {
            Ok(p) => p,
            Err(e) => {
                return Err(e);
            },
        };
        plan.push((prompt, output));
        i = i + 1;
    }
    Ok(plan)
}

} // verus!
