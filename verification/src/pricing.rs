//! Pay-as-you-go API prices of the 4.x model families (Opus, Sonnet, Haiku), and the cost of
//! a message's token counts under them.
//!
//! Prices are exact integers: nano-dollars (1e-9 USD) per token, which is the
//! published price in USD per million tokens times 1000. Costs are therefore
//! exact amounts of nano-dollars.
use vstd::prelude::*;
use crate::text::{ascii_lower_seq, has_substring, chars_of, lower_contains};

verus! {

/// Per-token prices of one model family, in nano-dollars per token.
#[derive(Clone, Copy)]
pub struct Pricing {
    pub input: u32,
    pub output: u32,
    pub cache_write: u32,
    pub cache_read: u32,
}

/// Opus: $15 in, $75 out, $18.75 cache write, $1.50 cache read per million tokens.
pub open spec fn opus_pricing() -> Pricing {
    Pricing { input: 15000, output: 75000, cache_write: 18750, cache_read: 1500 }
}

/// Haiku: $1 in, $5 out, $1.25 cache write, $0.10 cache read per million tokens.
pub open spec fn haiku_pricing() -> Pricing {
    Pricing { input: 1000, output: 5000, cache_write: 1250, cache_read: 100 }
}

/// Sonnet: $3 in, $15 out, $3.75 cache write, $0.30 cache read per million tokens.
pub open spec fn sonnet_pricing() -> Pricing {
    Pricing { input: 3000, output: 15000, cache_write: 3750, cache_read: 300 }
}

/// An unknown model is priced at zero, so that it shows tokens but no cost.
pub open spec fn zero_pricing() -> Pricing {
    Pricing { input: 0, output: 0, cache_write: 0, cache_read: 0 }
}

/// The prices that apply to a model name: the family named in it, matched
/// case-insensitively and in the order opus, haiku, sonnet.
pub open spec fn spec_lookup(model: Seq<char>) -> Pricing {
    let m = ascii_lower_seq(model);
    if has_substring(m, "opus"@) {
        opus_pricing()
    } else if has_substring(m, "haiku"@) {
        haiku_pricing()
    } else if has_substring(m, "sonnet"@) {
        sonnet_pricing()
    } else {
        zero_pricing()
    }
}

/// The cost, in nano-dollars, of the given token counts under prices `p`.
pub open spec fn spec_cost(p: Pricing, input: u64, output: u64, cache_write: u64, cache_read: u64) -> nat {
    (input * p.input + output * p.output + cache_write * p.cache_write + cache_read
        * p.cache_read) as nat
}

/// The prices for `model`.
pub fn lookup(model: &str) -> (p: Pricing)
    ensures
        p == spec_lookup(model@),
{
    let m = chars_of(model);
    if lower_contains(&m, "opus") {
        Pricing { input: 15000, output: 75000, cache_write: 18750, cache_read: 1500 }
    } else if lower_contains(&m, "haiku") {
        Pricing { input: 1000, output: 5000, cache_write: 1250, cache_read: 100 }
    } else if lower_contains(&m, "sonnet") {
        Pricing { input: 3000, output: 15000, cache_write: 3750, cache_read: 300 }
    } else {
        Pricing { input: 0, output: 0, cache_write: 0, cache_read: 0 }
    }
}

proof fn lemma_product_bound(a: u64, b: u32)
    ensures
        0 <= a * b <= 0x1_0000_0000_0000_0000_0000_0000,
{
    assert(a * b <= 0xFFFF_FFFF_FFFF_FFFF * 0xFFFF_FFFF) by (nonlinear_arith);
    assert(0 <= a * b) by (nonlinear_arith);
}

/// The cost, in nano-dollars, of a message with these token counts.
pub fn cost(p: Pricing, input: u64, output: u64, cache_write: u64, cache_read: u64) -> (c: u128)
    ensures
        c == spec_cost(p, input, output, cache_write, cache_read),
        c < 0x10_0000_0000_0000_0000_0000_0000,
{
    proof {
        lemma_product_bound(input, p.input);
        lemma_product_bound(output, p.output);
        lemma_product_bound(cache_write, p.cache_write);
        lemma_product_bound(cache_read, p.cache_read);
    }
    (input as u128) * (p.input as u128) + (output as u128) * (p.output as u128) + (
    cache_write as u128) * (p.cache_write as u128) + (cache_read as u128) * (
    p.cache_read as u128)
}


/// The family named anywhere in a model name, in any ASCII case, sets its
/// prices (nano-dollars per token for input, output, cache write, cache
/// read): Opus 15000/75000/18750/1500; otherwise Haiku 1000/5000/1250/100;
/// otherwise Sonnet 3000/15000/3750/300; a name naming none of them is
/// priced at zero.
pub proof fn law_family_prices(model: Seq<char>)
    ensures
        has_substring(ascii_lower_seq(model), "opus"@) ==> spec_lookup(model) == (Pricing {
            input: 15000,
            output: 75000,
            cache_write: 18750,
            cache_read: 1500,
        }),
        !has_substring(ascii_lower_seq(model), "opus"@) && has_substring(
            ascii_lower_seq(model),
            "haiku"@,
        ) ==> spec_lookup(model) == (Pricing {
            input: 1000,
            output: 5000,
            cache_write: 1250,
            cache_read: 100,
        }),
        !has_substring(ascii_lower_seq(model), "opus"@) && !has_substring(
            ascii_lower_seq(model),
            "haiku"@,
        ) && has_substring(ascii_lower_seq(model), "sonnet"@) ==> spec_lookup(model) == (Pricing {
            input: 3000,
            output: 15000,
            cache_write: 3750,
            cache_read: 300,
        }),
        !has_substring(ascii_lower_seq(model), "opus"@) && !has_substring(
            ascii_lower_seq(model),
            "haiku"@,
        ) && !has_substring(ascii_lower_seq(model), "sonnet"@) ==> spec_lookup(model) == (
        Pricing { input: 0, output: 0, cache_write: 0, cache_read: 0 }),
{
}

/// Where "sonnet" stands in a name does not matter: a Sonnet name with any
/// text before and after it (and no other family named) gets the Sonnet
/// prices, so a thousand input tokens cost 3_000_000 nano-dollars ($0.003).
pub proof fn law_sonnet_anywhere(before: Seq<char>, after: Seq<char>)
    requires
        !has_substring(ascii_lower_seq(before + "sonnet"@ + after), "opus"@),
        !has_substring(ascii_lower_seq(before + "sonnet"@ + after), "haiku"@),
    ensures
        spec_lookup(before + "sonnet"@ + after) == (Pricing {
            input: 3000,
            output: 15000,
            cache_write: 3750,
            cache_read: 300,
        }),
        spec_cost(spec_lookup(before + "sonnet"@ + after), 1000, 0, 0, 0) == 3_000_000,
{
    let m = before + "sonnet"@ + after;
    let low = ascii_lower_seq(m);
    reveal_strlit("sonnet");
    let i = before.len() as int;
    assert(low.subrange(i, i + 6) =~= "sonnet"@) by {
        assert forall|j: int| 0 <= j < 6 implies low.subrange(i, i + 6)[j] == "sonnet"@[j] by {
            assert(m[i + j] == "sonnet"@[j]);
            assert(low[i + j] == crate::text::ascii_lower(m[i + j]));
        }
    }
    assert(crate::text::occurs_at(low, "sonnet"@, i));
    law_family_prices(m);
}


/// A cost is additive over the four kinds of tokens, each kind priced at its
/// own rate: input tokens at the input price, output tokens at the output
/// price, cache writes at the cache-write price, cache reads at the
/// cache-read price.
pub proof fn law_cost_by_kind(p: Pricing, input: u64, output: u64, cache_write: u64, cache_read: u64)
    ensures
        spec_cost(p, input, 0, 0, 0) == input * p.input,
        spec_cost(p, 0, output, 0, 0) == output * p.output,
        spec_cost(p, 0, 0, cache_write, 0) == cache_write * p.cache_write,
        spec_cost(p, 0, 0, 0, cache_read) == cache_read * p.cache_read,
        spec_cost(p, input, output, cache_write, cache_read) == spec_cost(p, input, 0, 0, 0)
            + spec_cost(p, 0, output, 0, 0) + spec_cost(p, 0, 0, cache_write, 0) + spec_cost(
            p,
            0,
            0,
            0,
            cache_read,
        ),
{
    assert(0 <= input * p.input && 0 <= output * p.output && 0 <= cache_write * p.cache_write
        && 0 <= cache_read * p.cache_read) by (nonlinear_arith);
}

} // verus!
