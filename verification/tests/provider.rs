use llm_call::provider::{
    api_url, provider_base_url, provider_input_price_per_1m, provider_output_price_per_1m,
    versioned_base_url,
};

#[test]
fn known_providers_have_their_addresses() {
    let cases = [
        ("openai", "https://api.openai.com"),
        ("open-ai", "https://api.openai.com"),
        ("anthropic", "https://api.anthropic.com"),
        ("deepseek", "https://api.deepseek.com"),
        ("deepseek-cn", "https://api.deepseeki.com"),
        ("deepseekcn", "https://api.deepseeki.com"),
        ("openrouter", "https://openrouter.ai/api"),
        ("novita", "https://api.novita.ai"),
        ("fireworks", "https://api.fireworks.ai/inference"),
    ];
    for (provider, url) in cases {
        assert_eq!(provider_base_url(provider), url);
    }
}

#[test]
fn unknown_providers_are_found_by_their_name() {
    assert_eq!(provider_base_url("mistral"), "https://api.mistral.com");
    assert_eq!(provider_base_url(" Mistral\n"), "https://api.mistral.com");
    assert_eq!(provider_base_url(""), "https://api..com");
    assert_eq!(provider_base_url("open ai"), "https://api.open ai.com");
}

#[test]
fn spelling_does_not_count() {
    for spelling in ["OpenAI", " openai", "OPENAI\t", "\u{a0}oPeNaI\u{3000}"] {
        assert_eq!(provider_base_url(spelling), provider_base_url("openai"));
        assert_eq!(provider_input_price_per_1m(spelling), 250);
        assert_eq!(provider_output_price_per_1m(spelling), 1000);
    }
}

#[test]
fn prices_in_cents() {
    let cases = [
        ("openai", 250, 1000),
        ("open-ai", 250, 1000),
        ("anthropic", 300, 1500),
        ("deepseek", 14, 28),
        ("deepseek-cn", 14, 28),
        ("deepseekcn", 100, 400),
        ("novita", 100, 400),
    ];
    for (provider, price_in, price_out) in cases {
        assert_eq!(provider_input_price_per_1m(provider), price_in);
        assert_eq!(provider_output_price_per_1m(provider), price_out);
    }
}

#[test]
fn the_version_is_added_once() {
    assert_eq!(versioned_base_url("https://api.deepseek.com"), "https://api.deepseek.com/v1");
    assert_eq!(versioned_base_url("https://api.openai.com/v1"), "https://api.openai.com/v1");
    assert_eq!(versioned_base_url(""), "/v1");
    assert_eq!(versioned_base_url("v1"), "v1/v1");
    assert_eq!(versioned_base_url("/v1"), "/v1");
}

#[test]
fn endpoints() {
    assert_eq!(
        api_url("https://api.deepseek.com", "chat/completions"),
        "https://api.deepseek.com/v1/chat/completions"
    );
    assert_eq!(
        api_url("https://openrouter.ai/api/v1", "chat/completions"),
        "https://openrouter.ai/api/v1/chat/completions"
    );
}

#[test]
fn endpoints_of_the_providers() {
    let cases = [
        ("openai", "https://api.openai.com/v1/chat/completions"),
        ("anthropic", "https://api.anthropic.com/v1/chat/completions"),
        ("deepseek", "https://api.deepseek.com/v1/chat/completions"),
        ("openrouter", "https://openrouter.ai/api/v1/chat/completions"),
        ("novita", "https://api.novita.ai/v1/chat/completions"),
        ("fireworks", "https://api.fireworks.ai/inference/v1/chat/completions"),
        ("mistral", "https://api.mistral.com/v1/chat/completions"),
    ];
    for (provider, url) in cases {
        assert_eq!(api_url(&provider_base_url(provider), "chat/completions"), url);
    }
}

#[test]
fn base_urls_are_https_and_carry_no_version() {
    for provider in ["openai", "deepseek", "openrouter", "fireworks", "novita", "anthropic", "/v1", ""] {
        let url = provider_base_url(provider);
        assert!(url.starts_with("https://"));
        assert!(!url.ends_with("/v1"));
    }
}
