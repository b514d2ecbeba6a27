//! What is known of the providers: where they answer and what they charge.

use crate::text::{lowered, same_text, to_ascii_lowercase, trim, trimmed};
use vstd::prelude::*;
use vstd::string::*;

verus! {

/// The name under which a provider is looked up: surrounding white space and ASCII case do not
/// count.
pub open spec fn provider_key(provider: Seq<char>) -> Seq<char> {
    lowered(trimmed(provider))
}

fn key_of(provider: &str) -> (key: String)
    ensures
        key@ == provider_key(provider@),
{
    to_ascii_lowercase(trim(provider))
}

/// The base URL of `provider`, without a version segment.
pub open spec fn base_url_of(provider: Seq<char>) -> Seq<char> {
    let key = provider_key(provider);
    if key == "openai"@ || key == "open-ai"@ {
        "https://api.openai.com"@
    } else if key == "anthropic"@ {
        "https://api.anthropic.com"@
    } else if key == "deepseek"@ {
        "https://api.deepseek.com"@
    } else if key == "deepseek-cn"@ || key == "deepseekcn"@ {
        "https://api.deepseeki.com"@
    } else if key == "openrouter"@ {
        "https://openrouter.ai/api"@
    } else if key == "novita"@ {
        "https://api.novita.ai"@
    } else if key == "fireworks"@ {
        "https://api.fireworks.ai/inference"@
    } else {
        "https://api."@ + key + ".com"@
    }
}

/// The default base URL of a provider, without the version segment, which `api_url` adds. A provider that is not known by name is looked for under
/// a host name made of its own.
pub fn provider_base_url(provider: &str) -> (url: String)
    ensures
        url@ == base_url_of(provider@),
{
    let key = key_of(provider);
    let raw = if same_text(&key, "openai") || same_text(&key, "open-ai") {
        "https://api.openai.com"
    } else if same_text(&key, "anthropic") {
        "https://api.anthropic.com"
    } else if same_text(&key, "deepseek") {
        "https://api.deepseek.com"
    } else if same_text(&key, "deepseek-cn") || same_text(&key, "deepseekcn") {
        "https://api.deepseeki.com"
    } else if same_text(&key, "openrouter") {
        "https://openrouter.ai/api"
    } else if same_text(&key, "novita") {
        "https://api.novita.ai"
    } else if same_text(&key, "fireworks") {
        "https://api.fireworks.ai/inference"
    } else {
        let mut url = "https://api.".to_owned();
        url.append(&key);
        url.append(".com");
        return url;
    };
    raw.to_owned()
}

/// `base` with the version segment `/v1` at its end.
pub open spec fn versioned(base: Seq<char>) -> Seq<char> {
    if "/v1"@.is_suffix_of(base) {
        base
    } else {
        base + "/v1"@
    }
}

/// A base URL with the version segment `/v1` at its end, which is added only where it is missing.
pub fn versioned_base_url(base_url: &str) -> (url: String)
    ensures
        url@ == versioned(base_url@),
{
    let n = base_url.unicode_len();
    proof {
        reveal_strlit("/v1");
    }
    let mut url = base_url.to_owned();
    if n >= 3 && same_text(base_url.substring_char(n - 3, n), "/v1") {
        proof {
            assert(base_url@.subrange(n - 3, n as int) =~= "/v1"@);
        }
    } else {
        proof {
            if "/v1"@.is_suffix_of(base_url@) {
                assert(base_url@.subrange(n - 3, n as int) =~= "/v1"@);
            }
        }
        url.append("/v1");
    }
    url
}

/// The URL of an endpoint: the versioned base URL, a slash, and the path.
pub open spec fn endpoint(base: Seq<char>, path: Seq<char>) -> Seq<char> {
    versioned(base) + "/"@ + path
}

/// The URL of the endpoint `path` under `base_url`.
pub fn api_url(base_url: &str, path: &str) -> (url: String)
    ensures
        url@ == endpoint(base_url@, path@),
{
    let mut url = versioned_base_url(base_url);
    url.append("/");
    url.append(path);
    url
}

// ---- prices ----

/// The price of a million input tokens, in US cents.
pub open spec fn input_price(provider: Seq<char>) -> nat {
    let key = provider_key(provider);
    if key == "openai"@ || key == "open-ai"@ {
        250
    } else if key == "anthropic"@ {
        300
    } else if key == "deepseek"@ || key == "deepseek-cn"@ {
        14
    } else {
        100
    }
}

/// The price of a million output tokens, in US cents.
pub open spec fn output_price(provider: Seq<char>) -> nat {
    let key = provider_key(provider);
    if key == "openai"@ || key == "open-ai"@ {
        1000
    } else if key == "anthropic"@ {
        1500
    } else if key == "deepseek"@ || key == "deepseek-cn"@ {
        28
    } else {
        400
    }
}

/// Rough price of a million input tokens in US cents, with a conservative fallback for providers
/// that are not listed.
pub fn provider_input_price_per_1m(provider: &str) -> (cents: u64)
    ensures
        cents == input_price(provider@),
{
    let key = key_of(provider);
    if same_text(&key, "openai") || same_text(&key, "open-ai") {
        250
    } else if same_text(&key, "anthropic") {
        300
    } else if same_text(&key, "deepseek") || same_text(&key, "deepseek-cn") {
        14
    } else {
        100
    }
}

/// Rough price of a million output tokens in US cents, with a conservative fallback for providers
/// that are not listed.
pub fn provider_output_price_per_1m(provider: &str) -> (cents: u64)
    ensures
        cents == output_price(provider@),
{
    let key = key_of(provider);
    if same_text(&key, "openai") || same_text(&key, "open-ai") {
        1000
    } else if same_text(&key, "anthropic") {
        1500
    } else if same_text(&key, "deepseek") || same_text(&key, "deepseek-cn") {
        28
    } else {
        400
    }
}

/// What the tokens of a call cost at `provider`, in hundred-millionths of a US dollar: a cent per
/// million tokens is one such unit per token.
pub open spec fn cost_of(provider: Seq<char>, tokens_in: nat, tokens_out: nat) -> nat {
    tokens_in * input_price(provider) + tokens_out * output_price(provider)
}

/// The estimated cost of a call, in hundred-millionths of a US dollar.
pub fn estimated_cost(provider: &str, tokens_in: u64, tokens_out: u64) -> (cost: u128)
    ensures
        cost == cost_of(provider@, tokens_in as nat, tokens_out as nat),
{
    let price_in: u64 = provider_input_price_per_1m(provider);
    let price_out: u64 = provider_output_price_per_1m(provider);
    proof {
        assert(0 <= tokens_in * price_in <= 0xFFFF_FFFF_FFFF_FFFF * 1500) by (nonlinear_arith)
            requires
                0 <= tokens_in <= 0xFFFF_FFFF_FFFF_FFFF,
                0 <= price_in <= 1500,
        ;
        assert(0 <= tokens_out * price_out <= 0xFFFF_FFFF_FFFF_FFFF * 1500) by (nonlinear_arith)
            requires
                0 <= tokens_out <= 0xFFFF_FFFF_FFFF_FFFF,
                0 <= price_out <= 1500,
        ;
    }
    (tokens_in as u128) * (price_in as u128) + (tokens_out as u128) * (price_out as u128)
}

// ---- laws ----

/// A provider is the same under any spelling that differs only in surrounding white space or in
/// ASCII case: same address, same prices.
pub proof fn spelling_does_not_count(a: Seq<char>, b: Seq<char>)
    requires
        lowered(trimmed(a)) == lowered(trimmed(b)),
    ensures
        base_url_of(a) == base_url_of(b),
        input_price(a) == input_price(b),
        output_price(a) == output_price(b),
        forall|i: nat, o: nat| cost_of(a, i, o) == cost_of(b, i, o),
{
}

/// Every provider is called over HTTPS.
pub proof fn every_base_url_is_https(provider: Seq<char>)
    ensures
        "https://"@.is_prefix_of(base_url_of(provider)),
{
    reveal_strlit("https://");
    reveal_strlit("https://api.");
    reveal_strlit("https://api.openai.com");
    reveal_strlit("https://api.anthropic.com");
    reveal_strlit("https://api.deepseek.com");
    reveal_strlit("https://api.deepseeki.com");
    reveal_strlit("https://openrouter.ai/api");
    reveal_strlit("https://api.novita.ai");
    reveal_strlit("https://api.fireworks.ai/inference");
    let url = base_url_of(provider);
    assert(url.len() >= 8);
    assert(url.take(8) =~= "https://"@);
}

/// No base URL carries the version segment, so an endpoint always gets it exactly once.
pub proof fn base_urls_carry_no_version(provider: Seq<char>, path: Seq<char>)
    ensures
        !"/v1"@.is_suffix_of(base_url_of(provider)),
        endpoint(base_url_of(provider), path) == base_url_of(provider) + "/v1"@ + "/"@ + path,
{
    reveal_strlit("/v1");
    reveal_strlit(".com");
    reveal_strlit("https://api.openai.com");
    reveal_strlit("https://api.anthropic.com");
    reveal_strlit("https://api.deepseek.com");
    reveal_strlit("https://api.deepseeki.com");
    reveal_strlit("https://openrouter.ai/api");
    reveal_strlit("https://api.novita.ai");
    reveal_strlit("https://api.fireworks.ai/inference");
    let url = base_url_of(provider);
    assert(url.last() != '1');
    if "/v1"@.is_suffix_of(url) {
        assert(url.subrange(url.len() - 3, url.len() as int)[2] == "/v1"@[2]);
    }
}

/// A base URL ends in the version segment once it is versioned, and versioning it again changes
/// nothing.
pub proof fn versioning_is_idempotent(base: Seq<char>)
    ensures
        "/v1"@.is_suffix_of(versioned(base)),
        versioned(versioned(base)) == versioned(base),
{
    reveal_strlit("/v1");
    let v = versioned(base);
    assert(v.subrange(v.len() - 3, v.len() as int) =~= "/v1"@);
}

/// The cost estimate adds up: two calls cost what one call with their tokens together costs, and
/// more tokens never cost less.
pub proof fn costs_add_up(provider: Seq<char>, in1: nat, out1: nat, in2: nat, out2: nat)
    ensures
        cost_of(provider, in1 + in2, out1 + out2) == cost_of(provider, in1, out1) + cost_of(
            provider,
            in2,
            out2,
        ),
        cost_of(provider, in1, out1) <= cost_of(provider, in1 + in2, out1 + out2),
        cost_of(provider, 0, 0) == 0,
{
    let p = input_price(provider);
    let q = output_price(provider);
    assert((in1 + in2) * p == in1 * p + in2 * p) by (nonlinear_arith);
    assert((out1 + out2) * q == out1 * q + out2 * q) by (nonlinear_arith);
    assert(0 * p == 0 && 0 * q == 0) by (nonlinear_arith);
    assert(in2 * p >= 0 && out2 * q >= 0) by (nonlinear_arith)
        requires
            p >= 0,
            q >= 0,
            in2 >= 0,
            out2 >= 0,
    ;
}

/// The names that are listed are nine, no two alike.
proof fn lemma_listed_names()
    ensures
        "openai"@ != "novita"@,
        "anthropic"@ != "fireworks"@,
        "deepseekcn"@ != "openrouter"@,
        "openai"@.len() == 6,
        "open-ai"@.len() == 7,
        "anthropic"@.len() == 9,
        "deepseek"@.len() == 8,
        "deepseek-cn"@.len() == 11,
        "deepseekcn"@.len() == 10,
        "openrouter"@.len() == 10,
        "novita"@.len() == 6,
        "fireworks"@.len() == 9,
{
    reveal_strlit("openai");
    reveal_strlit("open-ai");
    reveal_strlit("anthropic");
    reveal_strlit("deepseek");
    reveal_strlit("deepseek-cn");
    reveal_strlit("deepseekcn");
    reveal_strlit("openrouter");
    reveal_strlit("novita");
    reveal_strlit("fireworks");
    assert("openai"@[0] == 'o' && "novita"@[0] == 'n');
    assert("anthropic"@[0] == 'a' && "fireworks"@[0] == 'f');
    assert("deepseekcn"@[0] == 'd' && "openrouter"@[0] == 'o');
}

/// A provider that has an address of its own answers there, under whatever spelling it is named.
pub proof fn listed_providers_answer_at_their_addresses(provider: Seq<char>, key: Seq<char>)
    requires
        key == lowered(trimmed(provider)),
    ensures
        key == "openai"@ || key == "open-ai"@ ==> base_url_of(provider) == "https://api.openai.com"@,
        key == "anthropic"@ ==> base_url_of(provider) == "https://api.anthropic.com"@,
        key == "deepseek"@ ==> base_url_of(provider) == "https://api.deepseek.com"@,
        key == "deepseek-cn"@ || key == "deepseekcn"@ ==> base_url_of(provider)
            == "https://api.deepseeki.com"@,
        key == "openrouter"@ ==> base_url_of(provider) == "https://openrouter.ai/api"@,
        key == "novita"@ ==> base_url_of(provider) == "https://api.novita.ai"@,
        key == "fireworks"@ ==> base_url_of(provider) == "https://api.fireworks.ai/inference"@,
{
    lemma_listed_names();
}

/// Any other provider answers at a host that bears its name, of whatever length, and two of them
/// never share an address.
pub proof fn other_providers_answer_under_their_names(a: Seq<char>, b: Seq<char>)
    requires
        !set![
            "openai"@, "open-ai"@, "anthropic"@, "deepseek"@, "deepseek-cn"@, "deepseekcn"@,
            "openrouter"@, "novita"@, "fireworks"@,
        ].contains(lowered(trimmed(a))),
        !set![
            "openai"@, "open-ai"@, "anthropic"@, "deepseek"@, "deepseek-cn"@, "deepseekcn"@,
            "openrouter"@, "novita"@, "fireworks"@,
        ].contains(lowered(trimmed(b))),
    ensures
        base_url_of(a) == "https://api."@ + lowered(trimmed(a)) + ".com"@,
        lowered(trimmed(a)) != lowered(trimmed(b)) ==> base_url_of(a) != base_url_of(b),
{
    let start = "https://api."@;
    let end = ".com"@;
    let (p, q) = (lowered(trimmed(a)), lowered(trimmed(b)));
    if base_url_of(a) == base_url_of(b) {
        let url = base_url_of(a);
        assert(p =~= url.subrange(start.len() as int, url.len() - end.len()));
        assert(q =~= url.subrange(start.len() as int, url.len() - end.len()));
    }
}

/// The version segment goes behind a base URL that does not end in it, and into the endpoint once,
/// whether the base URL ends in it or not; the path follows.
pub proof fn endpoints_have_one_version(base: Seq<char>, path: Seq<char>)
    requires
        !"/v1"@.is_suffix_of(base),
    ensures
        versioned(base) == base + "/v1"@,
        versioned(base + "/v1"@) == base + "/v1"@,
        endpoint(base, path) == base + "/v1/"@ + path,
        endpoint(base + "/v1"@, path) == base + "/v1/"@ + path,
{
    reveal_strlit("/v1");
    reveal_strlit("/v1/");
    reveal_strlit("/");
    let with = base + "/v1"@;
    assert(with.subrange(with.len() - 3, with.len() as int) =~= "/v1"@);
    assert(base + "/v1"@ + "/"@ + path =~= base + "/v1/"@ + path);
}

/// The prices in cents of a million tokens, by the name of the provider under whatever spelling.
/// Every other provider has the fallback prices. Nothing is free, and what goes out costs more than
/// what goes in.
pub proof fn prices_go_by_the_provider(provider: Seq<char>, key: Seq<char>)
    requires
        key == lowered(trimmed(provider)),
    ensures
        key == "openai"@ || key == "open-ai"@ ==> input_price(provider) == 250 && output_price(provider)
            == 1000,
        key == "anthropic"@ ==> input_price(provider) == 300 && output_price(provider) == 1500,
        key == "deepseek"@ || key == "deepseek-cn"@ ==> input_price(provider) == 14
            && output_price(provider) == 28,
        key != "openai"@ && key != "open-ai"@ && key != "anthropic"@ && key != "deepseek"@ && key
            != "deepseek-cn"@ ==> input_price(provider) == 100 && output_price(provider) == 400,
        0 < input_price(provider) < output_price(provider),
{
    lemma_listed_names();
}

/// A million input tokens cost the input price, and a million output tokens the output price, at a
/// million hundred-millionths of a dollar for each cent; one token costs a millionth of that.
pub proof fn a_million_tokens_cost_the_price(provider: Seq<char>)
    ensures
        cost_of(provider, 1_000_000, 0) == 1_000_000 * input_price(provider),
        cost_of(provider, 0, 1_000_000) == 1_000_000 * output_price(provider),
        cost_of(provider, 1, 0) == input_price(provider),
        cost_of(provider, 0, 1) == output_price(provider),
{
    let p = input_price(provider);
    let q = output_price(provider);
    assert(0 * p == 0 && 0 * q == 0 && 1 * p == p && 1 * q == q) by (nonlinear_arith);
}

} // verus!
