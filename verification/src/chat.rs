//! What goes into a call of a secondary model and what comes back, as JSON.

use crate::config::opt_text;
use crate::conversation::{message_views, Message, MessageView, Role};
use crate::json::{
    array_value, at, bool_value, empty_object, indices_lead_to_their_items, int_at, int_in, int_member,
    int_value, json, member, names_lead_to_members, plain, pointer_path, set_member, step, text_at,
    text_in, text_member, text_value, JsonView,
};
use crate::text::{decimal, digit, trim, trimmed};
use crate::tool::{ErrorView, ToolError};
use vstd::prelude::*;
use vstd::string::*;

verus! {

// ---- the input of the tool ----

/// What the caller asks for, but for the temperature.
#[derive(Debug)]
pub struct CallInput {
    /// The name of a declared alias.
    pub alias: String,
    pub prompt: String,
    /// What a new conversation begins with.
    pub context: Option<String>,
    /// The conversation to continue.
    pub thread_id: Option<String>,
    pub max_tokens: u32,
}

/// A `CallInput`, with texts as sequences of characters.
pub struct InputView {
    pub alias: Seq<char>,
    pub prompt: Seq<char>,
    pub context: Option<Seq<char>>,
    pub thread_id: Option<Seq<char>>,
    pub max_tokens: nat,
}

impl View for CallInput {
    type V = InputView;

    open spec fn view(&self) -> InputView {
        InputView {
            alias: self.alias@,
            prompt: self.prompt@,
            context: opt_text(self.context),
            thread_id: opt_text(self.thread_id),
            max_tokens: self.max_tokens as nat,
        }
    }
}

/// How many tokens a reply may have when the caller does not say.
pub const DEFAULT_MAX_TOKENS: u64 = 4096;

/// How many tokens a reply may have at most.
pub const MAX_TOKENS_LIMIT: u64 = 32_768;

/// How many tokens a reply may have when the caller asks for `asked`: at least one, at most the
/// limit.
pub open spec fn token_limit(asked: Option<u64>) -> nat {
    match asked {
        None => DEFAULT_MAX_TOKENS as nat,
        Some(n) => if n < 1 {
            1
        } else if n > MAX_TOKENS_LIMIT {
            MAX_TOKENS_LIMIT as nat
        } else {
            n as nat
        },
    }
}

fn limit_tokens(asked: Option<u64>) -> (limit: u32)
    ensures
        limit == token_limit(asked),
{
    let n: u64 = match asked {
        None => DEFAULT_MAX_TOKENS,
        Some(n) => n,
    };
    if n < 1 {
        1
    } else if n > MAX_TOKENS_LIMIT {
        MAX_TOKENS_LIMIT as u32
    } else {
        n as u32
    }
}

/// What an input asks for. An alias and a prompt must be there and be text; anything else that is
/// missing or of another kind is as if it were not given.
pub open spec fn read_input(input: JsonView) -> Result<InputView, ErrorView> {
    match text_in(member(input, "alias"@)) {
        None => Err(ErrorView::InvalidInput("missing field: alias"@)),
        Some(alias) => match text_in(member(input, "prompt"@)) {
            None => Err(ErrorView::InvalidInput("missing field: prompt"@)),
            Some(prompt) => Ok(
                InputView {
                    alias: trimmed(alias),
                    prompt,
                    context: text_in(member(input, "context"@)),
                    thread_id: text_in(member(input, "thread_id"@)),
                    max_tokens: token_limit(int_in(member(input, "max_tokens"@))),
                },
            ),
        },
    }
}

/// Reads what an input asks for.
pub fn parse_input(input: &serde_json::Value) -> (call: Result<CallInput, ToolError>)
    ensures
        match call {
            Ok(c) => read_input(json(*input)) == Ok::<InputView, ErrorView>(c@),
            Err(e) => read_input(json(*input)) == Err::<InputView, ErrorView>(e@),
        },
{
    let alias = match text_member(input, "alias") {
        Some(alias) => alias,
        None => {
            return Err(ToolError::invalid_input("missing field: alias"));
        },
    };
    let prompt = match text_member(input, "prompt") {
        Some(prompt) => prompt,
        None => {
            return Err(ToolError::invalid_input("missing field: prompt"));
        },
    };
    let context = text_member(input, "context");
    let thread_id = text_member(input, "thread_id");
    let max_tokens: u32 = limit_tokens(int_member(input, "max_tokens"));
    Ok(CallInput { alias: trim(&alias).to_owned(), prompt, context, thread_id, max_tokens })
}

// ---- the temperature ----

/// The bit that marks a negative double.
pub const SIGN_BIT: u64 = 0x8000_0000_0000_0000;

/// The bits of infinity. A number with larger bits, its sign aside, is not a number.
pub const INFINITY_BITS: u64 = 0x7FF0_0000_0000_0000;

/// The bits of the highest temperature, two.
pub const HIGHEST_TEMPERATURE: u64 = 0x4000_0000_0000_0000;

/// The bits of the temperature that is taken when the caller gives none, three tenths.
pub const DEFAULT_TEMPERATURE: u64 = 0x3FD3_3333_3333_3333;

/// The bits of a double without its sign. They order the doubles by their distance from zero.
pub open spec fn magnitude(bits: u64) -> int {
    if bits >= SIGN_BIT {
        bits - SIGN_BIT
    } else {
        bits as int
    }
}

/// The double is below zero.
pub open spec fn below_zero(bits: u64) -> bool {
    bits > SIGN_BIT
}

/// The temperature for the one that was asked for, both by the bits of their doubles: from zero to
/// two, where what lies outside goes to the nearer end. What is not a number stays.
pub open spec fn temperature_bits(asked: Option<u64>) -> u64 {
    match asked {
        None => DEFAULT_TEMPERATURE,
        Some(bits) => if magnitude(bits) > INFINITY_BITS {
            bits
        } else if below_zero(bits) {
            0
        } else if bits < SIGN_BIT && bits > HIGHEST_TEMPERATURE {
            HIGHEST_TEMPERATURE
        } else {
            bits
        },
    }
}

/// The temperature for the one that was asked for, both by the bits of their doubles.
pub fn resolve_temperature(asked: Option<u64>) -> (bits: u64)
    ensures
        bits == temperature_bits(asked),
{
    match asked {
        None => DEFAULT_TEMPERATURE,
        Some(bits) => {
            let size: u64 = if bits >= SIGN_BIT {
                bits - SIGN_BIT
            } else {
                bits
            };
            if size > INFINITY_BITS {
                bits
            } else if bits > SIGN_BIT {
                0
            } else if bits < SIGN_BIT && bits > HIGHEST_TEMPERATURE {
                HIGHEST_TEMPERATURE
            } else {
                bits
            }
        },
    }
}

// ---- the request ----

/// How a role is named in a request.
pub open spec fn role_name(role: Role) -> Seq<char> {
    match role {
        Role::System => "system"@,
        Role::User => "user"@,
        Role::Assistant => "assistant"@,
    }
}

/// A message in a request.
pub open spec fn message_json(message: MessageView) -> JsonView {
    JsonView::Object(
        map![
            "role"@ => JsonView::Text(role_name(message.role)),
            "content"@ => JsonView::Text(message.content),
        ],
    )
}

fn message_value(message: &Message) -> (value: serde_json::Value)
    ensures
        json(value) == message_json(message@),
{
    let role = match message.role {
        Role::System => "system",
        Role::User => "user",
        Role::Assistant => "assistant",
    };
    let mut value = empty_object();
    set_member(&mut value, "role", text_value(role));
    set_member(&mut value, "content", text_value(&message.content));
    value
}

/// The body of a request: the whole conversation, to be answered in one piece.
pub open spec fn body_json(
    model: Seq<char>,
    messages: Seq<MessageView>,
    temperature: JsonView,
    max_tokens: nat,
) -> JsonView {
    JsonView::Object(
        map![
            "model"@ => JsonView::Text(model),
            "messages"@ => JsonView::Array(
                messages.map_values(|message: MessageView| message_json(message)),
            ),
            "temperature"@ => temperature,
            "max_tokens"@ => JsonView::PosInt(max_tokens as u64),
            "stream"@ => JsonView::Bool(false),
        ],
    )
}

/// The body of a request.
pub fn chat_request_body(
    model: &str,
    messages: &Vec<Message>,
    temperature: serde_json::Value,
    max_tokens: u32,
) -> (body: serde_json::Value)
    ensures
        json(body) == body_json(
            model@,
            message_views(messages@),
            json(temperature),
            max_tokens as nat,
        ),
{
    let mut items: Vec<serde_json::Value> = Vec::new();
    let mut i: usize = 0;
    while i < messages.len()
        invariant
            i <= messages@.len(),
            items@.len() == i,
            forall|j: int|
                0 <= j < i ==> json(#[trigger] items@[j]) == message_json(messages@[j]@),
        decreases messages@.len() - i,
    {
        items.push(message_value(&messages[i]));
        i = i + 1;
    }
    assert(items@.map_values(|item: serde_json::Value| json(item)) =~= message_views(
        messages@,
    ).map_values(|message: MessageView| message_json(message)));
    let mut body = empty_object();
    set_member(&mut body, "model", text_value(model));
    set_member(&mut body, "messages", array_value(items));
    set_member(&mut body, "temperature", temperature);
    set_member(&mut body, "max_tokens", int_value(max_tokens as u64));
    set_member(&mut body, "stream", bool_value(false));
    body
}

/// Whether an HTTP status says that the request succeeded.
pub fn is_success(status: u16) -> (yes: bool)
    ensures
        yes == (200 <= status <= 299),
{
    200 <= status && status <= 299
}

/// How `reqwest` writes an HTTP status: its number and what it means.
pub uninterp spec fn status_text(status: u16) -> Seq<char>;

/// `StatusCode::from_u16` takes any number of three digits, and `to_string` writes the status that
/// it stands for, the number first.
#[verifier::external_body]
fn status_line(status: u16) -> (text: String)
    requires
        100 <= status <= 999,
    ensures
        text@ == status_text(status),
        decimal(status as nat).is_prefix_of(text@),
{
    reqwest::StatusCode::from_u16(status).unwrap().to_string()
}

/// What is said of a request that did not succeed.
pub open spec fn http_failure_text(status: Seq<char>, body: Seq<char>) -> Seq<char> {
    "HTTP "@ + status + ": "@ + body
}

/// What is said of a request that came back with a status that is written `status`, and with
/// `body`.
pub fn http_failure_line(status: &str, body: &str) -> (message: String)
    ensures
        message@ == http_failure_text(status@, body@),
{
    let mut message = "HTTP ".to_owned();
    message.append(status);
    message.append(": ");
    message.append(body);
    message
}

/// What is said of a request that came back with `status` and `body`.
pub fn http_failure(status: u16, body: &str) -> (message: String)
    requires
        100 <= status <= 999,
    ensures
        message@ == http_failure_text(status_text(status), body@),
        ("HTTP "@ + decimal(status as nat)).is_prefix_of(message@),
{
    let line = status_line(status);
    let message = http_failure_line(&line, body);
    proof {
        let start = "HTTP "@ + decimal(status as nat);
        assert(line@.take(decimal(status as nat).len() as int) =~= decimal(status as nat));
        assert(message@.take(start.len() as int) =~= start) by {
            assert forall|i: int| 0 <= i < start.len() implies message@[i] == start[i] by {
                if i >= "HTTP "@.len() {
                    let k = i - "HTTP "@.len();
                    assert(start[i] == decimal(status as nat)[k]);
                    assert(line@.take(decimal(status as nat).len() as int)[k] == line@[k]);
                }
            }
        }
    }
    message
}

/// What went wrong with a request that came back with `status` and `body`: nothing, where the status
/// says that it succeeded; with any other status it failed, whatever the body holds.
pub fn failure_of(status: u16, body: &str) -> (failure: Option<String>)
    requires
        100 <= status <= 999,
    ensures
        failure is None <==> 200 <= status <= 299,
        failure matches Some(message) ==> message@ == http_failure_text(status_text(status), body@),
{
    if is_success(status) {
        None
    } else {
        Some(http_failure(status, body))
    }
}

/// The error for a call that failed for the reason `cause`.
pub fn call_failed(cause: &str) -> (error: ToolError)
    ensures
        error@ == ErrorView::ExecutionFailed("llm_call failed: "@ + cause@),
{
    let mut message = "llm_call failed: ".to_owned();
    message.append(cause);
    ToolError::execution_failed(&message)
}

// ---- the response ----

/// What the model answered.
#[derive(Debug)]
pub struct Reply {
    pub content: String,
    pub tokens_in: u64,
    pub tokens_out: u64,
}

/// A `Reply`, with its text as a sequence of characters.
pub struct ReplyView {
    pub content: Seq<char>,
    pub tokens_in: nat,
    pub tokens_out: nat,
}

impl View for Reply {
    type V = ReplyView;

    open spec fn view(&self) -> ReplyView {
        ReplyView {
            content: self.content@,
            tokens_in: self.tokens_in as nat,
            tokens_out: self.tokens_out as nat,
        }
    }
}

/// Where a response holds the text of its first choice.
pub open spec fn content_tokens() -> Seq<Seq<char>> {
    seq!["choices"@, "0"@, "message"@, "content"@]
}

/// Where a response holds the number of tokens that it took in.
pub open spec fn tokens_in_tokens() -> Seq<Seq<char>> {
    seq!["usage"@, "prompt_tokens"@]
}

/// Where a response holds the number of tokens that it gave out.
pub open spec fn tokens_out_tokens() -> Seq<Seq<char>> {
    seq!["usage"@, "completion_tokens"@]
}

/// What a response says. What is missing or of another kind counts as empty, or as zero.
pub open spec fn reply_in(response: JsonView) -> ReplyView {
    ReplyView {
        content: match text_in(at(response, content_tokens())) {
            Some(text) => text,
            None => Seq::empty(),
        },
        tokens_in: match int_in(at(response, tokens_in_tokens())) {
            Some(n) => n as nat,
            None => 0,
        },
        tokens_out: match int_in(at(response, tokens_out_tokens())) {
            Some(n) => n as nat,
            None => 0,
        },
    }
}

proof fn lemma_paths()
    ensures
        plain(content_tokens()),
        pointer_path(content_tokens()) == "/choices/0/message/content"@,
        plain(tokens_in_tokens()),
        pointer_path(tokens_in_tokens()) == "/usage/prompt_tokens"@,
        plain(tokens_out_tokens()),
        pointer_path(tokens_out_tokens()) == "/usage/completion_tokens"@,
{
    reveal_strlit("choices");
    reveal_strlit("0");
    reveal_strlit("message");
    reveal_strlit("content");
    reveal_strlit("usage");
    reveal_strlit("prompt_tokens");
    reveal_strlit("completion_tokens");
    reveal_strlit("/choices/0/message/content");
    reveal_strlit("/usage/prompt_tokens");
    reveal_strlit("/usage/completion_tokens");
    lemma_four_tokens("choices"@, "0"@, "message"@, "content"@);
    lemma_two_tokens("usage"@, "prompt_tokens"@);
    lemma_two_tokens("usage"@, "completion_tokens"@);
    assert(seq!['/'] + "choices"@ + (seq!['/'] + "0"@ + (seq!['/'] + "message"@ + (seq!['/']
        + "content"@))) =~= "/choices/0/message/content"@);
    assert(seq!['/'] + "usage"@ + (seq!['/'] + "prompt_tokens"@) =~= "/usage/prompt_tokens"@);
    assert(seq!['/'] + "usage"@ + (seq!['/'] + "completion_tokens"@)
        =~= "/usage/completion_tokens"@);
}

proof fn lemma_two_tokens(a: Seq<char>, b: Seq<char>)
    ensures
        pointer_path(seq![a, b]) == seq!['/'] + a + (seq!['/'] + b),
{
    reveal_with_fuel(pointer_path, 3);
    assert(seq![a, b].drop_first() =~= seq![b]);
    assert(seq![b].drop_first() =~= Seq::<Seq<char>>::empty());
    assert(seq!['/'] + b + Seq::<char>::empty() =~= seq!['/'] + b);
}

proof fn lemma_four_tokens(a: Seq<char>, b: Seq<char>, c: Seq<char>, d: Seq<char>)
    ensures
        pointer_path(seq![a, b, c, d]) == seq!['/'] + a + (seq!['/'] + b + (seq!['/'] + c + (seq![
            '/',
        ] + d))),
{
    reveal_with_fuel(pointer_path, 3);
    assert(seq![a, b, c, d].drop_first() =~= seq![b, c, d]);
    assert(seq![b, c, d].drop_first() =~= seq![c, d]);
    lemma_two_tokens(c, d);
}

/// Reads what a response says.
pub fn read_reply(response: &serde_json::Value) -> (reply: Reply)
    ensures
        reply@ == reply_in(json(*response)),
{
    proof {
        lemma_paths();
    }
    let content = match text_at(response, "/choices/0/message/content") {
        Some(content) => content,
        None => String::new(),
    };
    let tokens_in: u64 = match int_at(response, "/usage/prompt_tokens") {
        Some(n) => n,
        None => 0,
    };
    let tokens_out: u64 = match int_at(response, "/usage/completion_tokens") {
        Some(n) => n,
        None => 0,
    };
    Reply { content, tokens_in, tokens_out }
}

// ---- the result of the tool ----

/// What the tool hands back of a call.
pub open spec fn result_json(
    content: Seq<char>,
    thread_id: Seq<char>,
    model: Seq<char>,
    alias: Seq<char>,
    tokens_in: nat,
    tokens_out: nat,
) -> JsonView {
    JsonView::Object(
        map![
            "content"@ => JsonView::Text(content),
            "thread_id"@ => JsonView::Text(thread_id),
            "model_used"@ => JsonView::Text(model),
            "alias"@ => JsonView::Text(alias),
            "tokens_used"@ => JsonView::Object(map![
                "input"@ => JsonView::PosInt(tokens_in as u64),
                "output"@ => JsonView::PosInt(tokens_out as u64),
            ]),
        ],
    )
}

/// What the tool hands back of a call.
pub fn result_value(reply: &Reply, thread_id: &str, model: &str, alias: &str) -> (value:
    serde_json::Value)
    ensures
        json(value) == result_json(
            reply@.content,
            thread_id@,
            model@,
            alias@,
            reply@.tokens_in,
            reply@.tokens_out,
        ),
{
    let mut tokens = empty_object();
    set_member(&mut tokens, "input", int_value(reply.tokens_in));
    set_member(&mut tokens, "output", int_value(reply.tokens_out));
    let mut value = empty_object();
    set_member(&mut value, "content", text_value(&reply.content));
    set_member(&mut value, "thread_id", text_value(thread_id));
    set_member(&mut value, "model_used", text_value(model));
    set_member(&mut value, "alias", text_value(alias));
    set_member(&mut value, "tokens_used", tokens);
    value
}

// ---- laws ----

/// A reply may always have at least one token and never more than the limit; what the caller asks
/// for is granted wherever it lies between.
pub proof fn max_tokens_stay_in_range(asked: Option<u64>)
    ensures
        1 <= token_limit(asked) <= MAX_TOKENS_LIMIT,
        asked matches Some(n) ==> 1 <= n <= MAX_TOKENS_LIMIT ==> token_limit(asked) == n,
        asked is None ==> token_limit(asked) == DEFAULT_MAX_TOKENS,
{
}

/// A temperature is never below zero nor above two, one that lies between is taken as it is, and
/// resolving it again changes nothing.
pub proof fn temperature_stays_in_range(asked: Option<u64>)
    requires
        asked matches Some(bits) ==> magnitude(bits) <= INFINITY_BITS,
    ensures
        !below_zero(temperature_bits(asked)),
        magnitude(temperature_bits(asked)) <= HIGHEST_TEMPERATURE,
        asked matches Some(bits) ==> !below_zero(bits) && magnitude(bits) <= HIGHEST_TEMPERATURE
            ==> temperature_bits(asked) == bits,
        temperature_bits(Some(temperature_bits(asked))) == temperature_bits(asked),
{
}

/// Nothing but the alias, the prompt, the context, the thread ID and the token limit is read from
/// an input: no other member has any influence.
pub proof fn other_members_do_not_count(a: JsonView, b: JsonView)
    requires
        member(a, "alias"@) == member(b, "alias"@),
        member(a, "prompt"@) == member(b, "prompt"@),
        member(a, "context"@) == member(b, "context"@),
        member(a, "thread_id"@) == member(b, "thread_id"@),
        member(a, "max_tokens"@) == member(b, "max_tokens"@),
    ensures
        read_input(a) == read_input(b),
{
}

/// The first item of an array is the one with the index `0`.
proof fn lemma_first_item(items: Seq<JsonView>)
    requires
        items.len() > 0,
    ensures
        step(JsonView::Array(items), "0"@) == Some(items[0]),
{
    reveal_strlit("0");
    assert(decimal(0) =~= "0"@);
    let i = choose|i: nat| i < items.len() && #[trigger] decimal(i) == "0"@;
    assert(i < items.len() && decimal(i) == "0"@);
    if i >= 10 {
        assert(decimal(i / 10).len() >= 1);
        assert(decimal(i).len() >= 2);
    } else {
        assert(decimal(i)[0] == digit(i));
        assert(i == 0);
    }
}

/// The text of the first choice of a response is the content that is read.
pub proof fn first_choice_is_the_reply(
    response: Map<Seq<char>, JsonView>,
    choices: Seq<JsonView>,
    choice: Map<Seq<char>, JsonView>,
    message: Map<Seq<char>, JsonView>,
    content: Seq<char>,
)
    requires
        response.dom().contains("choices"@) && response["choices"@] == JsonView::Array(choices),
        choices.len() > 0 && choices[0] == JsonView::Object(choice),
        choice.dom().contains("message"@) && choice["message"@] == JsonView::Object(message),
        message.dom().contains("content"@) && message["content"@] == JsonView::Text(content),
    ensures
        reply_in(JsonView::Object(response)).content == content,
{
    reveal_with_fuel(at, 5);
    lemma_first_item(choices);
    let tokens = content_tokens();
    assert(tokens.drop_first() =~= seq!["0"@, "message"@, "content"@]);
    assert(tokens.drop_first().drop_first() =~= seq!["message"@, "content"@]);
    assert(tokens.drop_first().drop_first().drop_first() =~= seq!["content"@]);
    assert(tokens.drop_first().drop_first().drop_first().drop_first() =~= Seq::<Seq<char>>::empty());
}

/// The token numbers of a response are those that are read.
pub proof fn usage_is_what_is_counted(
    response: Map<Seq<char>, JsonView>,
    usage: Map<Seq<char>, JsonView>,
    tokens_in: u64,
    tokens_out: u64,
)
    requires
        response.dom().contains("usage"@) && response["usage"@] == JsonView::Object(usage),
        usage.dom().contains("prompt_tokens"@) && usage["prompt_tokens"@] == JsonView::PosInt(
            tokens_in,
        ),
        usage.dom().contains("completion_tokens"@) && usage["completion_tokens"@]
            == JsonView::PosInt(tokens_out),
    ensures
        reply_in(JsonView::Object(response)).tokens_in == tokens_in,
        reply_in(JsonView::Object(response)).tokens_out == tokens_out,
{
    reveal_with_fuel(at, 3);
    assert(tokens_in_tokens().drop_first() =~= seq!["prompt_tokens"@]);
    assert(tokens_in_tokens().drop_first().drop_first() =~= Seq::<Seq<char>>::empty());
    assert(tokens_out_tokens().drop_first() =~= seq!["completion_tokens"@]);
    assert(tokens_out_tokens().drop_first().drop_first() =~= Seq::<Seq<char>>::empty());
}

/// Each part of a result can be read back from it.
pub proof fn results_can_be_read_back(
    content: Seq<char>,
    thread_id: Seq<char>,
    model: Seq<char>,
    alias: Seq<char>,
    tokens_in: u64,
    tokens_out: u64,
)
    ensures
        ({
            let result = result_json(
                content,
                thread_id,
                model,
                alias,
                tokens_in as nat,
                tokens_out as nat,
            );
            &&& member(result, "content"@) == Some(JsonView::Text(content))
            &&& member(result, "thread_id"@) == Some(JsonView::Text(thread_id))
            &&& member(result, "model_used"@) == Some(JsonView::Text(model))
            &&& member(result, "alias"@) == Some(JsonView::Text(alias))
            &&& member(result, "tokens_used"@) is Some
            &&& member(member(result, "tokens_used"@)->0, "input"@) == Some(
                JsonView::PosInt(tokens_in),
            )
            &&& member(member(result, "tokens_used"@)->0, "output"@) == Some(
                JsonView::PosInt(tokens_out),
            )
        }),
{
    reveal_strlit("content");
    reveal_strlit("thread_id");
    reveal_strlit("model_used");
    reveal_strlit("alias");
    reveal_strlit("tokens_used");
    reveal_strlit("input");
    reveal_strlit("output");
    assert("content"@.len() == 7 && "thread_id"@.len() == 9 && "model_used"@.len() == 10);
    assert("alias"@.len() == 5 && "tokens_used"@.len() == 11);
    assert("input"@.len() == 5 && "output"@.len() == 6);
}

/// The names of the members of requests and results are told apart by their lengths.
proof fn lemma_member_names()
    ensures
        "role"@.len() == 4,
        "content"@.len() == 7,
        "model"@.len() == 5,
        "messages"@.len() == 8,
        "temperature"@.len() == 11,
        "max_tokens"@.len() == 10,
        "stream"@.len() == 6,
        "thread_id"@.len() == 9,
        "model_used"@.len() == 10,
        "alias"@.len() == 5,
        "tokens_used"@.len() == 11,
        "input"@.len() == 5,
        "output"@.len() == 6,
{
    reveal_strlit("role");
    reveal_strlit("content");
    reveal_strlit("model");
    reveal_strlit("messages");
    reveal_strlit("temperature");
    reveal_strlit("max_tokens");
    reveal_strlit("stream");
    reveal_strlit("thread_id");
    reveal_strlit("model_used");
    reveal_strlit("alias");
    reveal_strlit("tokens_used");
    reveal_strlit("input");
    reveal_strlit("output");
}

/// A request carries the whole conversation: one item for each message, in their order, with the
/// name of its role and its whole text.
pub proof fn requests_carry_the_whole_conversation(
    model: Seq<char>,
    messages: Seq<MessageView>,
    temperature: JsonView,
    max_tokens: u32,
)
    ensures
        ({
            let body = body_json(model, messages, temperature, max_tokens as nat);
            &&& body is Object
            &&& body->Object_0.dom().contains("messages"@)
            &&& body->Object_0["messages"@] is Array
            &&& body->Object_0["messages"@]->Array_0.len() == messages.len()
            &&& forall|i: int|
                0 <= i < messages.len() ==> {
                    let item = #[trigger] body->Object_0["messages"@]->Array_0[i];
                    &&& item is Object
                    &&& item->Object_0.dom() == set!["role"@, "content"@]
                    &&& item->Object_0["content"@] == JsonView::Text(messages[i].content)
                    &&& messages[i].role == Role::System ==> item->Object_0["role"@]
                        == JsonView::Text("system"@)
                    &&& messages[i].role == Role::User ==> item->Object_0["role"@]
                        == JsonView::Text("user"@)
                    &&& messages[i].role == Role::Assistant ==> item->Object_0["role"@]
                        == JsonView::Text("assistant"@)
                }
        }),
{
    lemma_member_names();
    let body = body_json(model, messages, temperature, max_tokens as nat);
    assert forall|i: int| 0 <= i < messages.len() implies (
    #[trigger] body->Object_0["messages"@]->Array_0[i])->Object_0.dom() == set![
        "role"@,
        "content"@,
    ] by {
        assert(body->Object_0["messages"@]->Array_0[i] == message_json(messages[i]));
        assert(message_json(messages[i])->Object_0.dom() =~= set!["role"@, "content"@]);
    }
}

/// Besides the conversation a request says which model is asked, at what temperature and for how
/// many tokens, and that the answer is wanted in one piece; and it says nothing else.
pub proof fn requests_say_how_to_answer(
    model: Seq<char>,
    messages: Seq<MessageView>,
    temperature: JsonView,
    max_tokens: u32,
)
    ensures
        ({
            let members = body_json(model, messages, temperature, max_tokens as nat)->Object_0;
            &&& members.dom() == set![
                "model"@, "messages"@, "temperature"@, "max_tokens"@, "stream"@,
            ]
            &&& members["model"@] == JsonView::Text(model)
            &&& members["temperature"@] == temperature
            &&& members["max_tokens"@] == JsonView::PosInt(max_tokens as u64)
            &&& members["stream"@] == JsonView::Bool(false)
        }),
{
    lemma_member_names();
    let members = body_json(model, messages, temperature, max_tokens as nat)->Object_0;
    assert(members.dom() =~= set![
        "model"@, "messages"@, "temperature"@, "max_tokens"@, "stream"@,
    ]);
}

/// Who asks for no tokens gets one, who asks for more than 32768 gets those, and who asks for a
/// number between gets it; who does not ask gets 4096. Who asks for more never gets less.
pub proof fn token_limits_follow_what_is_asked(n: u64, more: u64)
    requires
        n <= more,
    ensures
        token_limit(None) == 4096,
        n == 0 ==> token_limit(Some(n)) == 1,
        1 <= n <= 32_768 ==> token_limit(Some(n)) == n,
        n > 32_768 ==> token_limit(Some(n)) == 32_768,
        token_limit(Some(n)) <= token_limit(Some(more)),
{
}

/// An input with an alias and a prompt asks for what it says: the alias without the white space
/// around it, the prompt as it is, a context and a conversation where they are texts, and a number
/// of tokens where it is an integer from zero up.
pub proof fn inputs_ask_for_what_they_say(
    members: Map<Seq<char>, JsonView>,
    alias: Seq<char>,
    prompt: Seq<char>,
)
    requires
        members.dom().contains("alias"@) && members["alias"@] == JsonView::Text(alias),
        members.dom().contains("prompt"@) && members["prompt"@] == JsonView::Text(prompt),
    ensures
        ({
            let read = read_input(JsonView::Object(members));
            &&& read is Ok
            &&& read->Ok_0.alias == trimmed(alias)
            &&& read->Ok_0.prompt == prompt
            &&& members.dom().contains("context"@) && members["context"@] is Text
                ==> read->Ok_0.context == Some(members["context"@]->Text_0)
            &&& !members.dom().contains("context"@) || !(members["context"@] is Text)
                ==> read->Ok_0.context is None
            &&& members.dom().contains("thread_id"@) && members["thread_id"@] is Text
                ==> read->Ok_0.thread_id == Some(members["thread_id"@]->Text_0)
            &&& !members.dom().contains("thread_id"@) || !(members["thread_id"@] is Text)
                ==> read->Ok_0.thread_id is None
            &&& members.dom().contains("max_tokens"@) && members["max_tokens"@] is PosInt
                ==> read->Ok_0.max_tokens == token_limit(Some(members["max_tokens"@]->PosInt_0))
            &&& !members.dom().contains("max_tokens"@) || !(members["max_tokens"@] is PosInt)
                ==> read->Ok_0.max_tokens == 4096
        }),
{
}

/// An input without an alias is answered that the alias is missing, and one with an alias but
/// without a prompt that the prompt is missing; what is not text counts as missing.
pub proof fn missing_fields_are_named(members: Map<Seq<char>, JsonView>, other: JsonView)
    requires
        !(other is Object),
    ensures
        read_input(other) == Err::<InputView, ErrorView>(
            ErrorView::InvalidInput("missing field: alias"@),
        ),
        !members.dom().contains("alias"@) || !(members["alias"@] is Text) ==> read_input(
            JsonView::Object(members),
        ) == Err::<InputView, ErrorView>(ErrorView::InvalidInput("missing field: alias"@)),
        members.dom().contains("alias"@) && members["alias"@] is Text && (!members.dom().contains(
            "prompt"@,
        ) || !(members["prompt"@] is Text)) ==> read_input(JsonView::Object(members)) == Err::<
            InputView,
            ErrorView,
        >(ErrorView::InvalidInput("missing field: prompt"@)),
{
}

/// Temperatures by the bits of their doubles. Three tenths is taken where none is asked for; below
/// zero goes to zero and above two to two, the infinities too; zero of either sign, two, and what
/// lies between stays; and so does what is not a number.
pub proof fn temperatures_go_to_the_nearer_end(bits: u64)
    ensures
        temperature_bits(None) == 0x3FD3_3333_3333_3333,
        bits <= 0x4000_0000_0000_0000 ==> temperature_bits(Some(bits)) == bits,
        0x4000_0000_0000_0000 < bits <= 0x7FF0_0000_0000_0000 ==> temperature_bits(Some(bits))
            == 0x4000_0000_0000_0000,
        0x7FF0_0000_0000_0000 < bits <= 0x8000_0000_0000_0000 ==> temperature_bits(Some(bits)) == bits,
        0x8000_0000_0000_0000 < bits <= 0xFFF0_0000_0000_0000 ==> temperature_bits(Some(bits)) == 0,
        0xFFF0_0000_0000_0000 < bits ==> temperature_bits(Some(bits)) == bits,
{
}

/// What is said of a failed request can be taken apart: `HTTP` and a blank, the status, a colon and a
/// blank, and the whole body.
pub proof fn failures_tell_status_and_body(status: Seq<char>, body: Seq<char>)
    ensures
        ({
            let text = http_failure_text(status, body);
            let colon = 5 + status.len() as int;
            &&& text.len() == 7 + status.len() + body.len()
            &&& text.take(5) == seq!['H', 'T', 'T', 'P', ' ']
            &&& text.subrange(5, colon) == status
            &&& text[colon] == ':' && text[colon + 1] == ' '
            &&& text.skip(colon + 2) == body
        }),
{
    reveal_strlit("HTTP ");
    reveal_strlit(": ");
    let text = http_failure_text(status, body);
    let colon = 5 + status.len() as int;
    assert(text.take(5) =~= seq!['H', 'T', 'T', 'P', ' ']);
    assert(text.subrange(5, colon) =~= status);
    assert(text.skip(colon + 2) =~= body);
}

/// Where the text of a response is looked for: under `choices`, `0`, `message` and `content`, one
/// after the other.
proof fn lemma_content_path(response: JsonView)
    ensures
        at(response, content_tokens()) == (match step(response, "choices"@) {
            None => None,
            Some(choices) => match step(choices, "0"@) {
                None => None,
                Some(choice) => match step(choice, "message"@) {
                    None => None,
                    Some(message) => step(message, "content"@),
                },
            },
        }),
{
    reveal_with_fuel(at, 5);
    let tokens = content_tokens();
    assert(tokens.drop_first() =~= seq!["0"@, "message"@, "content"@]);
    assert(tokens.drop_first().drop_first() =~= seq!["message"@, "content"@]);
    assert(tokens.drop_first().drop_first().drop_first() =~= seq!["content"@]);
    assert(tokens.drop_first().drop_first().drop_first().drop_first() =~= Seq::<Seq<char>>::empty());
}

/// No name on the way through a response can be taken for an index.
proof fn lemma_names_in_responses(value: JsonView)
    ensures
        value is Array ==> step(value, "choices"@) is None && step(value, "message"@) is None && step(
            value,
            "content"@,
        ) is None && step(value, "usage"@) is None && step(value, "prompt_tokens"@) is None && step(
            value,
            "completion_tokens"@,
        ) is None,
{
    reveal_strlit("choices");
    reveal_strlit("message");
    reveal_strlit("content");
    reveal_strlit("usage");
    reveal_strlit("prompt_tokens");
    reveal_strlit("completion_tokens");
    names_lead_to_members(value, "choices"@);
    names_lead_to_members(value, "message"@);
    names_lead_to_members(value, "content"@);
    names_lead_to_members(value, "usage"@);
    names_lead_to_members(value, "prompt_tokens"@);
    names_lead_to_members(value, "completion_tokens"@);
}

/// A response that gives no text in its first choice counts as an empty reply: one that is no
/// object, that has no choices, or whose first choice has no message with a text.
pub proof fn responses_without_text_are_empty(
    other: JsonView,
    response: Map<Seq<char>, JsonView>,
    choices: Seq<JsonView>,
    choice: Map<Seq<char>, JsonView>,
    message: Map<Seq<char>, JsonView>,
)
    requires
        !(other is Object),
    ensures
        reply_in(other).content == Seq::<char>::empty(),
        !response.dom().contains("choices"@) ==> reply_in(JsonView::Object(response)).content == Seq::<
            char,
        >::empty(),
        response.dom().contains("choices"@) && !(response["choices"@] is Array) && !(
        response["choices"@] is Object) ==> reply_in(JsonView::Object(response)).content == Seq::<
            char,
        >::empty(),
        response.dom().contains("choices"@) && response["choices"@] == JsonView::Array(choices) ==> {
            let content = reply_in(JsonView::Object(response)).content;
            &&& choices.len() == 0 ==> content == Seq::<char>::empty()
            &&& choices.len() > 0 && !(choices[0] is Object) ==> content == Seq::<char>::empty()
            &&& choices.len() > 0 && choices[0] == JsonView::Object(choice) ==> {
                &&& !choice.dom().contains("message"@) || !(choice["message"@] is Object) ==> content
                    == Seq::<char>::empty()
                &&& choice.dom().contains("message"@) && choice["message"@] == JsonView::Object(message)
                    && (!message.dom().contains("content"@) || !(message["content"@] is Text))
                    ==> content == Seq::<char>::empty()
            }
        },
{
    reveal_strlit("0");
    assert(decimal(0) =~= "0"@);
    lemma_content_path(other);
    lemma_content_path(JsonView::Object(response));
    lemma_names_in_responses(other);
    indices_lead_to_their_items(choices, 0);
    if choices.len() > 0 {
        lemma_names_in_responses(choices[0]);
        if choice.dom().contains("message"@) {
            lemma_names_in_responses(choice["message"@]);
        }
    }
}

/// Each token number of a response is counted by itself, and one that is missing, or no integer from
/// zero up, counts as zero.
pub proof fn token_numbers_are_counted_one_by_one(
    other: JsonView,
    response: Map<Seq<char>, JsonView>,
    usage: Map<Seq<char>, JsonView>,
)
    requires
        !(other is Object),
    ensures
        reply_in(other).tokens_in == 0 && reply_in(other).tokens_out == 0,
        !response.dom().contains("usage"@) || !(response["usage"@] is Object) ==> reply_in(
            JsonView::Object(response),
        ).tokens_in == 0 && reply_in(JsonView::Object(response)).tokens_out == 0,
        response.dom().contains("usage"@) && response["usage"@] == JsonView::Object(usage) ==> {
            let reply = reply_in(JsonView::Object(response));
            &&& usage.dom().contains("prompt_tokens"@) && usage["prompt_tokens"@] is PosInt
                ==> reply.tokens_in == usage["prompt_tokens"@]->PosInt_0
            &&& !usage.dom().contains("prompt_tokens"@) || !(usage["prompt_tokens"@] is PosInt)
                ==> reply.tokens_in == 0
            &&& usage.dom().contains("completion_tokens"@) && usage["completion_tokens"@] is PosInt
                ==> reply.tokens_out == usage["completion_tokens"@]->PosInt_0
            &&& !usage.dom().contains("completion_tokens"@) || !(usage["completion_tokens"@] is PosInt)
                ==> reply.tokens_out == 0
        },
{
    reveal_with_fuel(at, 3);
    assert(tokens_in_tokens().drop_first() =~= seq!["prompt_tokens"@]);
    assert(tokens_in_tokens().drop_first().drop_first() =~= Seq::<Seq<char>>::empty());
    assert(tokens_out_tokens().drop_first() =~= seq!["completion_tokens"@]);
    assert(tokens_out_tokens().drop_first().drop_first() =~= Seq::<Seq<char>>::empty());
    lemma_names_in_responses(other);
    if response.dom().contains("usage"@) {
        lemma_names_in_responses(response["usage"@]);
    }
}

/// A result has five members and two token numbers, and nothing else.
pub proof fn results_hold_nothing_else(
    content: Seq<char>,
    thread_id: Seq<char>,
    model: Seq<char>,
    alias: Seq<char>,
    tokens_in: nat,
    tokens_out: nat,
)
    ensures
        ({
            let result = result_json(content, thread_id, model, alias, tokens_in, tokens_out);
            &&& result is Object
            &&& result->Object_0.dom() == set![
                "content"@, "thread_id"@, "model_used"@, "alias"@, "tokens_used"@,
            ]
            &&& result->Object_0["tokens_used"@] is Object
            &&& result->Object_0["tokens_used"@]->Object_0.dom() == set!["input"@, "output"@]
        }),
{
    lemma_member_names();
    let result = result_json(content, thread_id, model, alias, tokens_in, tokens_out);
    assert(result->Object_0.dom() =~= set![
        "content"@, "thread_id"@, "model_used"@, "alias"@, "tokens_used"@,
    ]);
    assert(result->Object_0["tokens_used"@]->Object_0.dom() =~= set!["input"@, "output"@]);
}

/// What is asked for and what is answered are seen with all that they hold.
pub proof fn inputs_and_replies_are_seen_whole(call: CallInput, reply: Reply)
    ensures
        call@.alias == call.alias@,
        call@.prompt == call.prompt@,
        call.context is None ==> call@.context is None,
        call.context matches Some(context) ==> call@.context == Some(context@),
        call.thread_id is None ==> call@.thread_id is None,
        call.thread_id matches Some(id) ==> call@.thread_id == Some(id@),
        call@.max_tokens == call.max_tokens,
        reply@.content == reply.content@,
        reply@.tokens_in == reply.tokens_in,
        reply@.tokens_out == reply.tokens_out,
{
}

} // verus!
