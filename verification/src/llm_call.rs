//! The `llm_call` tool: calls a secondary model by a pre-declared alias.
//!
//! A call goes in three steps: it is admitted, it begins with the API key that was found, and it is
//! finished with the response of the provider.

use crate::chat::{
    body_json, call_failed, chat_request_body, parse_input, read_input, read_reply, reply_in,
    result_json, result_value, results_can_be_read_back, CallInput, InputView,
};
use crate::config::{api_key_of, name_list, opt_text, AliasConfig, AliasView, ModelsConfig};
use crate::conversation::{
    first_turns_say_context_and_prompt, lemma_turns_are_sound, message_views, new_thread, sound,
    with_prompt, with_reply, Message, MessageView, Role, ThreadState, ThreadView,
};
use crate::headers::{chat_headers, header_lines, header_safe, request_headers};
use crate::json::{json, json_text, member, text_in, to_text, JsonView};
use crate::llm_call_costs::{
    can_report, costs_of, has_room, ledger_wf, posted, report, totals, AliasMap, EntryView,
    ReportView,
};
use crate::provider::{
    a_million_tokens_cost_the_price, api_url, base_url_of, cost_of, endpoint,
    endpoints_have_one_version, estimated_cost, provider_base_url,
};
use crate::schema::{schema_json, schema_value};
use crate::string_map::StringMap;
use crate::text::{decimal, decimal_text, trimmed};
use crate::tool::{ApprovalRequirement, ErrorView, ToolCapability, ToolError};
use vstd::prelude::*;
use vstd::string::*;

verus! {

/// The `llm_call` tool with what it keeps during a session.
pub struct LlmCallTool {
    /// The declared aliases, as they were when the tool was registered.
    models_cfg: Option<ModelsConfig>,
    /// How often each alias with a limit was called.
    session_counts: StringMap<u32>,
    /// The conversations by their IDs.
    threads: StringMap<ThreadState>,
}

/// What the tool knows and remembers.
#[verifier::ext_equal]
pub struct ToolView {
    pub config: Option<Map<Seq<char>, AliasView>>,
    pub counts: Map<Seq<char>, nat>,
    pub threads: Map<Seq<char>, ThreadView>,
}

impl View for LlmCallTool {
    type V = ToolView;

    closed spec fn view(&self) -> ToolView {
        ToolView {
            config: match self.models_cfg {
                Some(cfg) => Some(cfg@),
                None => None,
            },
            counts: self.session_counts@.map_values(|count: u32| count as nat),
            threads: self.threads@.map_values(|thread: ThreadState| thread@),
        }
    }
}

/// How often `alias` was called in this session, as far as that is counted.
pub open spec fn calls_made(tool: ToolView, alias: Seq<char>) -> nat {
    if tool.counts.dom().contains(alias) {
        tool.counts[alias]
    } else {
        0
    }
}

/// The limit for `alias`, if it is declared with one.
pub open spec fn limit_of(tool: ToolView, alias: Seq<char>) -> Option<nat> {
    match tool.config {
        Some(aliases) => if aliases.dom().contains(alias) {
            aliases[alias].max_calls
        } else {
            None
        },
        None => None,
    }
}

/// Calls are counted only for aliases with a limit, and never beyond it.
pub open spec fn within_limits(tool: ToolView) -> bool {
    forall|alias: Seq<char>| #[trigger]
        tool.counts.dom().contains(alias) ==> limit_of(tool, alias) is Some && tool.counts[alias]
            <= limit_of(tool, alias)->0
}

// ---- admission ----

/// What is said when no alias is declared.
pub open spec fn no_config_text() -> Seq<char> {
    "No [models] section in config.toml. Define [models.aliases.<name>] to use llm_call."@
}

/// What is said when the alias is not declared.
pub open spec fn unknown_alias_text(
    alias: Seq<char>,
    aliases: Map<Seq<char>, AliasView>,
) -> Seq<char> {
    "Unknown alias '"@ + alias + "'. Available: ["@ + name_list(aliases) + "]"@
}

/// What is said when the alias has been called as often as it may be.
pub open spec fn limit_text(alias: Seq<char>, max: nat) -> Seq<char> {
    "Alias '"@ + alias + "' has reached its session limit of "@ + decimal(max) + " calls."@
}

/// Why a call of `alias` is refused, if it is.
pub open spec fn refusal(tool: ToolView, alias: Seq<char>) -> Option<ErrorView> {
    match tool.config {
        None => Some(ErrorView::NotAvailable(no_config_text())),
        Some(aliases) => if !aliases.dom().contains(alias) {
            Some(ErrorView::InvalidInput(unknown_alias_text(alias, aliases)))
        } else {
            match aliases[alias].max_calls {
                Some(max) => if calls_made(tool, alias) >= max {
                    Some(ErrorView::NotAvailable(limit_text(alias, max)))
                } else {
                    None
                },
                None => None,
            }
        },
    }
}

/// The tool after a call of `alias` was admitted: one call more is counted where there is a limit.
pub open spec fn counted(tool: ToolView, alias: Seq<char>) -> ToolView {
    if limit_of(tool, alias) is Some {
        ToolView {
            counts: tool.counts.insert(alias, calls_made(tool, alias) + 1),
            ..tool
        }
    } else {
        tool
    }
}

/// An admitted call: what is asked for, and the alias as it is declared.
pub struct Admission {
    pub call: CallInput,
    pub alias_cfg: AliasConfig,
}

/// An `Admission`, with texts as sequences of characters.
pub struct AdmissionView {
    pub call: InputView,
    pub alias_cfg: AliasView,
}

impl View for Admission {
    type V = AdmissionView;

    open spec fn view(&self) -> AdmissionView {
        AdmissionView { call: self.call@, alias_cfg: self.alias_cfg@ }
    }
}

/// What comes of an input: an admitted call, or the error that is answered.
pub open spec fn admission(tool: ToolView, input: JsonView) -> Result<AdmissionView, ErrorView> {
    match read_input(input) {
        Err(e) => Err(e),
        Ok(call) => match refusal(tool, call.alias) {
            Some(e) => Err(e),
            None => Ok(AdmissionView { call, alias_cfg: tool.config->0[call.alias] }),
        },
    }
}

/// The tool after an input: only an admitted call changes it.
pub open spec fn after_admission(tool: ToolView, input: JsonView) -> ToolView {
    match admission(tool, input) {
        Ok(admitted) => counted(tool, admitted.call.alias),
        Err(_) => tool,
    }
}

// ---- the call ----

/// What is said when there is no API key.
pub open spec fn no_key_text(alias: Seq<char>) -> Seq<char> {
    "No API key for alias '"@ + alias + "'. Set api_key_env or api_key in [models.aliases."@ + alias
        + "]."@
}

/// The conversation `id`.
pub open spec fn thread_of(tool: ToolView, id: Seq<char>) -> ThreadView {
    if tool.threads.dom().contains(id) {
        tool.threads[id]
    } else {
        new_thread()
    }
}

/// The tool after the user has spoken in the conversation `id`.
pub open spec fn prompted(
    tool: ToolView,
    id: Seq<char>,
    context: Option<Seq<char>>,
    prompt: Seq<char>,
) -> ToolView {
    ToolView {
        threads: tool.threads.insert(id, with_prompt(thread_of(tool, id), context, prompt)),
        ..tool
    }
}

/// The tool after the model has replied in the conversation `id`.
pub open spec fn replied(tool: ToolView, id: Seq<char>, content: Seq<char>) -> ToolView {
    if tool.threads.dom().contains(id) {
        ToolView {
            threads: tool.threads.insert(id, with_reply(tool.threads[id], content)),
            ..tool
        }
    } else {
        tool
    }
}

/// A call that is ready to go out.
pub struct PendingCall {
    pub alias: String,
    pub provider: String,
    pub model: String,
    pub api_key: String,
    pub base_url: String,
    pub thread_id: String,
    /// The conversation so far.
    pub messages: Vec<Message>,
    pub max_tokens: u32,
}

/// A `PendingCall`, with texts as sequences of characters.
pub struct PendingView {
    pub alias: Seq<char>,
    pub provider: Seq<char>,
    pub model: Seq<char>,
    pub api_key: Seq<char>,
    pub base_url: Seq<char>,
    pub thread_id: Seq<char>,
    pub messages: Seq<MessageView>,
    pub max_tokens: nat,
}

impl View for PendingCall {
    type V = PendingView;

    open spec fn view(&self) -> PendingView {
        PendingView {
            alias: self.alias@,
            provider: self.provider@,
            model: self.model@,
            api_key: self.api_key@,
            base_url: self.base_url@,
            thread_id: self.thread_id@,
            messages: message_views(self.messages@),
            max_tokens: self.max_tokens as nat,
        }
    }
}

/// The call that goes out for an admitted one, in the conversation `id`.
pub open spec fn outgoing(
    tool: ToolView,
    admitted: AdmissionView,
    api_key: Seq<char>,
    id: Seq<char>,
) -> PendingView {
    PendingView {
        alias: admitted.call.alias,
        provider: admitted.alias_cfg.provider,
        model: admitted.alias_cfg.model,
        api_key,
        base_url: base_url_of(admitted.alias_cfg.provider),
        thread_id: id,
        messages: with_prompt(
            thread_of(tool, id),
            admitted.call.context,
            admitted.call.prompt,
        ).messages,
        max_tokens: admitted.call.max_tokens,
    }
}

/// A lower-case hexadecimal digit.
pub open spec fn hex_digit(c: char) -> bool {
    '0' <= c <= '9' || 'a' <= c <= 'f'
}

/// The text of a random UUID: five groups of hexadecimal digits with hyphens between them, marked
/// as version 4 of the common variant.
pub open spec fn random_uuid_text(text: Seq<char>) -> bool {
    &&& text.len() == 36
    &&& forall|i: int|
        0 <= i < 36 ==> if i == 8 || i == 13 || i == 18 || i == 23 {
            #[trigger] text[i] == '-'
        } else {
            hex_digit(text[i])
        }
    &&& text[14] == '4'
    &&& text[19] == '8' || text[19] == '9' || text[19] == 'a' || text[19] == 'b'
}

/// `Uuid::new_v4` makes a random UUID, and `to_string` writes it in the usual form. Which one it is,
/// and that it was not made before, is left to chance. It panics where the system has no random
/// numbers to give.
#[verifier::external_body]
fn random_uuid() -> (text: String)
    ensures
        random_uuid_text(text@),
{
    uuid::Uuid::new_v4().to_string()
}

/// What was reported of a finished call.
pub open spec fn call_report(call: PendingView, response: JsonView) -> ReportView {
    let reply = reply_in(response);
    ReportView {
        alias: call.alias,
        tokens_in: reply.tokens_in,
        tokens_out: reply.tokens_out,
        cost: cost_of(call.provider, reply.tokens_in, reply.tokens_out),
    }
}

/// What is handed back of a finished call.
pub open spec fn call_result(call: PendingView, response: JsonView) -> JsonView {
    let reply = reply_in(response);
    result_json(
        reply.content,
        call.thread_id,
        call.model,
        call.alias,
        reply.tokens_in,
        reply.tokens_out,
    )
}

/// No counter overflows when the call is finished.
pub open spec fn can_be_finished(
    tool: ToolView,
    costs: Map<Seq<char>, EntryView>,
    call: PendingView,
    response: JsonView,
) -> bool {
    &&& has_room(costs, call_report(call, response))
    &&& thread_of(tool, call.thread_id).call_count < u32::MAX
}

impl LlmCallTool {
    /// The maps are in order, and no alias was called more often than it may be.
    pub closed spec fn wf(&self) -> bool {
        &&& self.models_cfg matches Some(cfg) ==> cfg.wf()
        &&& self.session_counts.wf()
        &&& self.threads.wf()
        &&& within_limits(self@)
    }

    /// A tool at the beginning of a session.
    #[must_use]
    pub fn new(models_cfg: Option<ModelsConfig>) -> (tool: Self)
        requires
            models_cfg matches Some(cfg) ==> cfg.wf(),
        ensures
            tool.wf(),
            tool@.config == (match models_cfg {
                Some(cfg) => Some(cfg@),
                None => None,
            }),
            tool@.counts == Map::<Seq<char>, nat>::empty(),
            tool@.threads == Map::<Seq<char>, ThreadView>::empty(),
    {
        let tool = LlmCallTool {
            models_cfg,
            session_counts: StringMap::new(),
            threads: StringMap::new(),
        };
        assert(tool@.counts =~= Map::<Seq<char>, nat>::empty());
        assert(tool@.threads =~= Map::<Seq<char>, ThreadView>::empty());
        tool
    }

    /// The name under which the tool is called.
    pub fn name(&self) -> (name: &'static str)
        ensures
            name@ == "llm_call"@,
    {
        "llm_call"
    }

    /// What the tool is for, in words for the model that calls it.
    pub fn description(&self) -> (text: &'static str)
        ensures
            text@
                == "Invoke a named secondary model alias (e.g. 'critic', 'auditor') defined in config.toml under [models.aliases]. Use this to get an independent critique, translation, or analysis from a different model mid-conversation. The alias must be pre-declared — dynamic endpoints are not accepted."@,
    {
        "Invoke a named secondary model alias (e.g. 'critic', 'auditor') defined in config.toml under [models.aliases]. Use this to get an independent critique, translation, or analysis from a different model mid-conversation. The alias must be pre-declared — dynamic endpoints are not accepted."
    }

    /// What input the tool takes, as a JSON schema.
    pub fn input_schema(&self) -> (schema: serde_json::Value)
        ensures
            json(schema) == schema_json(),
    {
        schema_value()
    }

    /// What the tool needs of its host: the network.
    pub fn capabilities(&self) -> (needs: Vec<ToolCapability>)
        ensures
            needs@ == seq![ToolCapability::Network],
    {
        let mut needs: Vec<ToolCapability> = Vec::new();
        needs.push(ToolCapability::Network);
        assert(needs@ =~= seq![ToolCapability::Network]);
        needs
    }

    /// The user is asked which model is called, and at what cost, before it is.
    pub fn approval_requirement(&self) -> (requirement: ApprovalRequirement)
        ensures
            requirement == ApprovalRequirement::Suggest,
    {
        ApprovalRequirement::Suggest
    }

    /// Whether calls may run side by side: they may not.
    pub fn supports_parallel(&self) -> (yes: bool)
        ensures
            !yes,
    {
        false
    }

    /// Admits a call, or says why it is refused. An admitted call counts toward the limit of its
    /// alias, whatever becomes of it.
    pub fn accept(&mut self, input: &serde_json::Value) -> (admitted: Result<Admission, ToolError>)
        requires
            old(self).wf(),
        ensures
            final(self).wf(),
            match admitted {
                Ok(a) => admission(old(self)@, json(*input)) == Ok::<AdmissionView, ErrorView>(a@),
                Err(e) => admission(old(self)@, json(*input)) == Err::<AdmissionView, ErrorView>(e@),
            },
            final(self)@ == after_admission(old(self)@, json(*input)),
    {
        let call = match parse_input(input) {
            Ok(call) => call,
            Err(e) => {
                return Err(e);
            },
        };
        let alias_cfg = match self.declared(&call.alias) {
            Ok(alias_cfg) => alias_cfg,
            Err(e) => {
                return Err(e);
            },
        };
        if let Some(max) = alias_cfg.max_calls_per_session {
            let count: u32 = match self.session_counts.get(&call.alias) {
                Some(count) => *count,
                None => 0,
            };
            if count >= max {
                return Err(limit_reached(&call.alias, max));
            }
            let ghost before = self@;
            self.session_counts.insert(call.alias.clone(), count + 1);
            assert(self@.counts =~= counted(before, call.alias@).counts);
        }
        Ok(Admission { call, alias_cfg })
    }

    /// The alias as it is declared.
    fn declared(&self, alias: &str) -> (alias_cfg: Result<AliasConfig, ToolError>)
        requires
            self.wf(),
        ensures
            match alias_cfg {
                Ok(cfg) => self@.config is Some && self@.config->0.dom().contains(alias@)
                    && self@.config->0[alias@] == cfg@,
                Err(e) => refusal(self@, alias@) == Some(e@) && !(self@.config is Some
                    && self@.config->0.dom().contains(alias@)),
            },
    {
        match &self.models_cfg {
            None => Err(
                ToolError::not_available(
                    "No [models] section in config.toml. Define [models.aliases.<name>] to use llm_call.",
                ),
            ),
            Some(cfg) => match cfg.aliases.get(alias) {
                Some(alias_cfg) => Ok(alias_cfg.clone()),
                None => {
                    let mut message = "Unknown alias '".to_owned();
                    message.append(alias);
                    message.append("'. Available: [");
                    message.append(&cfg.available());
                    message.append("]");
                    Err(ToolError::invalid_input(&message))
                },
            },
        }
    }

    /// Begins an admitted call with the API key that was found, in the conversation that was asked
    /// for or else in one with the ID `fresh_id`.
    pub fn begin_in(
        &mut self,
        admitted: Admission,
        api_key: Option<String>,
        fresh_id: String,
    ) -> (call: Result<PendingCall, ToolError>)
        requires
            old(self).wf(),
        ensures
            final(self).wf(),
            match api_key {
                None => {
                    &&& call matches Err(e)
                    &&& e@ == ErrorView::NotAvailable(no_key_text(admitted@.call.alias))
                    &&& final(self)@ == old(self)@
                },
                Some(key) => {
                    let id = match admitted@.call.thread_id {
                        Some(id) => id,
                        None => fresh_id@,
                    };
                    &&& call matches Ok(c)
                    &&& c@ == outgoing(old(self)@, admitted@, key@, id)
                    &&& final(self)@ == prompted(
                        old(self)@,
                        id,
                        admitted@.call.context,
                        admitted@.call.prompt,
                    )
                },
            },
    {
        let api_key = match api_key {
            Some(api_key) => api_key,
            None => {
                return Err(no_key(&admitted.call.alias));
            },
        };
        let base_url = provider_base_url(&admitted.alias_cfg.provider);
        let thread_id = match &admitted.call.thread_id {
            Some(id) => id.clone(),
            None => fresh_id,
        };
        let ghost before = self@;
        let mut thread = match self.threads.remove(&thread_id) {
            Some(thread) => thread,
            None => ThreadState::default(),
        };
        assert(thread@ == thread_of(before, thread_id@));
        thread.add_prompt(&admitted.call.context, &admitted.call.prompt);
        let messages = thread.transcript();
        self.threads.insert(thread_id.clone(), thread);
        assert(self@.threads =~= before.threads.insert(thread_id@, thread@));
        Ok(
            PendingCall {
                alias: admitted.call.alias,
                provider: admitted.alias_cfg.provider,
                model: admitted.alias_cfg.model,
                api_key,
                base_url,
                thread_id,
                messages,
                max_tokens: admitted.call.max_tokens,
            },
        )
    }

    /// Begins an admitted call with the API key that was found, in the conversation that was asked
    /// for or else in one with a random ID.
    pub fn begin(&mut self, admitted: Admission, api_key: Option<String>) -> (call: Result<
        PendingCall,
        ToolError,
    >)
        requires
            old(self).wf(),
        ensures
            final(self).wf(),
            match api_key {
                None => {
                    &&& call matches Err(e)
                    &&& e@ == ErrorView::NotAvailable(no_key_text(admitted@.call.alias))
                    &&& final(self)@ == old(self)@
                },
                Some(key) => {
                    &&& call matches Ok(c)
                    &&& match admitted@.call.thread_id {
                        Some(id) => c@.thread_id == id,
                        None => random_uuid_text(c@.thread_id),
                    }
                    &&& c@ == outgoing(old(self)@, admitted@, key@, c@.thread_id)
                    &&& final(self)@ == prompted(
                        old(self)@,
                        c@.thread_id,
                        admitted@.call.context,
                        admitted@.call.prompt,
                    )
                },
            },
    {
        let fresh_id = if api_key.is_some() && admitted.call.thread_id.is_none() {
            random_uuid()
        } else {
            String::new()
        };
        self.begin_in(admitted, api_key, fresh_id)
    }

    /// Begins an admitted call with the API key of its alias: `env_value`, which is what the
    /// environment variable of the alias holds, or else the key that the configuration gives.
    pub fn begin_with_env(&mut self, admitted: Admission, env_value: Option<String>) -> (call: Result<
        PendingCall,
        ToolError,
    >)
        requires
            old(self).wf(),
        ensures
            final(self).wf(),
            call is Ok <==> env_value is Some || admitted@.alias_cfg.api_key is Some,
            match api_key_of(admitted@.alias_cfg, opt_text(env_value)) {
                None => {
                    &&& call matches Err(e)
                    &&& e@ == ErrorView::NotAvailable(no_key_text(admitted@.call.alias))
                    &&& final(self)@ == old(self)@
                },
                Some(key) => {
                    &&& call matches Ok(c)
                    &&& c@.api_key == key
                    &&& match admitted@.call.thread_id {
                        Some(id) => c@.thread_id == id,
                        None => random_uuid_text(c@.thread_id),
                    }
                    &&& c@ == outgoing(old(self)@, admitted@, key, c@.thread_id)
                    &&& final(self)@ == prompted(
                        old(self)@,
                        c@.thread_id,
                        admitted@.call.context,
                        admitted@.call.prompt,
                    )
                },
            },
    {
        let api_key = admitted.alias_cfg.resolve_api_key(env_value);
        self.begin(admitted, api_key)
    }

    /// Whether a call can be finished without an overflow of a counter.
    pub fn can_finish(
        &self,
        costs: &AliasMap,
        call: &PendingCall,
        response: &serde_json::Value,
    ) -> (yes: bool)
        requires
            self.wf(),
            costs.wf(),
        ensures
            yes == can_be_finished(self@, totals(*costs), call@, json(*response)),
    {
        let reply = read_reply(response);
        let room = can_report(costs, &call.alias, reply.tokens_in, reply.tokens_out);
        match self.threads.get(&call.thread_id) {
            Some(thread) => room && thread.call_count < u32::MAX,
            None => room,
        }
    }

    /// Finishes a call with the response that came: reports its cost, keeps the reply in the
    /// conversation, and gives the text of the result.
    pub fn finish(
        &mut self,
        costs: &mut AliasMap,
        call: &PendingCall,
        response: &serde_json::Value,
    ) -> (result: String)
        requires
            old(self).wf(),
            ledger_wf(*old(costs)),
            can_be_finished(old(self)@, totals(*old(costs)), call@, json(*response)),
        ensures
            final(self).wf(),
            ledger_wf(*final(costs)),
            final(self)@ == replied(
                old(self)@,
                call@.thread_id,
                reply_in(json(*response)).content,
            ),
            totals(*final(costs)) == posted(
                totals(*old(costs)),
                call_report(call@, json(*response)),
            ),
            result@ == json_text(call_result(call@, json(*response))),
    {
        let ghost before = self@;
        let reply = read_reply(response);
        let cost: u128 = estimated_cost(&call.provider, reply.tokens_in, reply.tokens_out);
        report(costs, &call.alias, reply.tokens_in, reply.tokens_out, cost);
        match self.threads.remove(&call.thread_id) {
            Some(mut thread) => {
                assert(thread@ == before.threads[call.thread_id@]);
                thread.add_reply(&reply.content);
                self.threads.insert(call.thread_id.clone(), thread);
                assert(self@.threads =~= before.threads.insert(call.thread_id@, thread@));
            },
            None => {
                assert(self@.threads =~= before.threads);
            },
        }
        to_text(&result_value(&reply, &call.thread_id, &call.model, &call.alias))
    }
}

/// A request that is ready to be sent.
pub struct ChatRequest {
    pub url: String,
    pub headers: reqwest::header::HeaderMap,
    pub body: serde_json::Value,
}

/// The request for a call. There is none where the API key cannot stand in a header.
pub fn chat_request(call: &PendingCall, temperature: serde_json::Value) -> (request: Result<
    ChatRequest,
    ToolError,
>)
    ensures
        match request {
            Ok(r) => {
                &&& header_safe(call@.api_key)
                &&& r.url@ == endpoint(call@.base_url, "chat/completions"@)
                &&& !"/v1"@.is_suffix_of(call@.base_url) ==> r.url@ == call@.base_url + "/v1/"@
                    + "chat/completions"@
                &&& header_lines(r.headers) == chat_headers(call@.api_key)
                &&& json(r.body) == body_json(
                    call@.model,
                    call@.messages,
                    json(temperature),
                    call@.max_tokens,
                )
            },
            Err(e) => {
                &&& !header_safe(call@.api_key)
                &&& e@ == ErrorView::ExecutionFailed(
                    "llm_call failed: "@ + "failed to parse header value"@,
                )
            },
        },
{
    let url = api_url(&call.base_url, "chat/completions");
    proof {
        if !"/v1"@.is_suffix_of(call@.base_url) {
            endpoints_have_one_version(call@.base_url, "chat/completions"@);
        }
    }
    let headers = match request_headers(&call.api_key) {
        Ok(headers) => headers,
        Err(e) => {
            return Err(call_failed(e.message()));
        },
    };
    let body = chat_request_body(&call.model, &call.messages, temperature, call.max_tokens);
    Ok(ChatRequest { url, headers, body })
}

impl Default for LlmCallTool {
    /// A tool without any alias.
    fn default() -> (tool: Self)
        ensures
            tool.wf(),
            tool@ == (ToolView {
                config: None,
                counts: Map::empty(),
                threads: Map::empty(),
            }),
    {
        Self::new(None)
    }
}

fn limit_reached(alias: &str, max: u32) -> (error: ToolError)
    ensures
        error@ == ErrorView::NotAvailable(limit_text(alias@, max as nat)),
{
    let mut message = "Alias '".to_owned();
    message.append(alias);
    message.append("' has reached its session limit of ");
    message.append(&decimal_text(max as u64));
    message.append(" calls.");
    ToolError::not_available(&message)
}

fn no_key(alias: &str) -> (error: ToolError)
    ensures
        error@ == ErrorView::NotAvailable(no_key_text(alias@)),
{
    let mut message = "No API key for alias '".to_owned();
    message.append(alias);
    message.append("'. Set api_key_env or api_key in [models.aliases.");
    message.append(alias);
    message.append("].");
    ToolError::not_available(&message)
}

// ---- laws ----

/// Only declared aliases are called, and a call goes to the provider and the model that the
/// declaration names.
pub proof fn calls_go_to_the_declared_endpoint(
    tool: ToolView,
    input: JsonView,
    later: ToolView,
    api_key: Seq<char>,
    id: Seq<char>,
)
    requires
        admission(tool, input) is Ok,
    ensures
        ({
            let admitted = admission(tool, input)->Ok_0;
            let call = outgoing(later, admitted, api_key, id);
            &&& tool.config is Some
            &&& tool.config->0.dom().contains(call.alias)
            &&& call.provider == tool.config->0[call.alias].provider
            &&& call.model == tool.config->0[call.alias].model
            &&& call.base_url == base_url_of(tool.config->0[call.alias].provider)
        }),
{
}

/// Nothing in an input but the alias has a say in where its call goes, and white space around the
/// alias does not count.
pub proof fn inputs_do_not_choose_the_endpoint(
    tool: ToolView,
    a: JsonView,
    b: JsonView,
    later: ToolView,
    api_key: Seq<char>,
    id: Seq<char>,
)
    requires
        admission(tool, a) is Ok,
        admission(tool, b) is Ok,
        trimmed(text_in(member(a, "alias"@))->0) == trimmed(text_in(member(b, "alias"@))->0),
    ensures
        ({
            let first = outgoing(later, admission(tool, a)->Ok_0, api_key, id);
            let second = outgoing(later, admission(tool, b)->Ok_0, api_key, id);
            first.base_url == second.base_url && first.model == second.model && first.provider
                == second.provider
        }),
{
}

/// A refused input leaves the tool as it was.
pub proof fn refusals_leave_no_trace(tool: ToolView, input: JsonView)
    requires
        admission(tool, input) is Err,
    ensures
        after_admission(tool, input) == tool,
{
}

/// Something that happens to the tool in a session.
pub enum StepView {
    /// An input comes.
    Input(JsonView),
    /// A call begins in the conversation `id`.
    Prompt { id: Seq<char>, context: Option<Seq<char>>, prompt: Seq<char> },
    /// A call is finished in the conversation `id`.
    Reply { id: Seq<char>, content: Seq<char> },
}

/// The tool after one step.
pub open spec fn after_step(tool: ToolView, step: StepView) -> ToolView {
    match step {
        StepView::Input(input) => after_admission(tool, input),
        StepView::Prompt { id, context, prompt } => prompted(tool, id, context, prompt),
        StepView::Reply { id, content } => replied(tool, id, content),
    }
}

/// The tool after a row of steps.
pub open spec fn after_steps(tool: ToolView, steps: Seq<StepView>) -> ToolView
    decreases steps.len(),
{
    if steps.len() == 0 {
        tool
    } else {
        after_step(after_steps(tool, steps.drop_last()), steps.last())
    }
}

/// `step` is an input that is admitted as a call of `alias`.
pub open spec fn admits(tool: ToolView, step: StepView, alias: Seq<char>) -> bool {
    step matches StepView::Input(input) && admission(tool, input) matches Ok(admitted)
        && admitted.call.alias == alias
}

/// How many steps of a row are inputs that are admitted as calls of `alias`.
pub open spec fn admitted_calls(tool: ToolView, steps: Seq<StepView>, alias: Seq<char>) -> nat
    decreases steps.len(),
{
    if steps.len() == 0 {
        0
    } else {
        let earlier = steps.drop_last();
        admitted_calls(tool, earlier, alias) + (if admits(
            after_steps(tool, earlier),
            steps.last(),
            alias,
        ) {
            1nat
        } else {
            0nat
        })
    }
}

/// In a session, an alias with a limit is admitted at most as often as the limit says, whatever
/// else happens; each admission is counted.
pub proof fn session_limits_are_kept(tool: ToolView, steps: Seq<StepView>, alias: Seq<char>)
    requires
        within_limits(tool),
        limit_of(tool, alias) is Some,
    ensures
        calls_made(tool, alias) + admitted_calls(tool, steps, alias) <= limit_of(tool, alias)->0,
        calls_made(after_steps(tool, steps), alias) == calls_made(tool, alias) + admitted_calls(
            tool,
            steps,
            alias,
        ),
        after_steps(tool, steps).config == tool.config,
        within_limits(after_steps(tool, steps)),
    decreases steps.len(),
{
    if steps.len() > 0 {
        session_limits_are_kept(tool, steps.drop_last(), alias);
    } else {
        if tool.counts.dom().contains(alias) {
            assert(tool.counts[alias] <= limit_of(tool, alias)->0);
        }
    }
}

/// No conversation is ever lost or cut short in a session: what was said stays said.
pub proof fn sessions_keep_their_conversations(tool: ToolView, steps: Seq<StepView>, id: Seq<char>)
    ensures
        thread_of(tool, id).messages.is_prefix_of(thread_of(after_steps(tool, steps), id).messages),
        tool.threads.dom().contains(id) ==> after_steps(tool, steps).threads.dom().contains(id),
    decreases steps.len(),
{
    if steps.len() > 0 {
        sessions_keep_their_conversations(tool, steps.drop_last(), id);
        let before = thread_of(after_steps(tool, steps.drop_last()), id).messages;
        let after = thread_of(after_steps(tool, steps), id).messages;
        assert(before.is_prefix_of(after));
        let said = thread_of(tool, id).messages;
        assert(said =~= after.subrange(0, said.len() as int)) by {
            assert forall|i: int| 0 <= i < said.len() implies said[i] == after[i] by {
                assert(said[i] == before.subrange(0, said.len() as int)[i]);
                assert(before[i] == after.subrange(0, before.len() as int)[i]);
            }
        }
    }
}

/// In every conversation of a session a system message stands only at the beginning, and the
/// number of its calls is the number of the replies in it.
pub proof fn conversations_stay_sound(tool: ToolView, steps: Seq<StepView>, id: Seq<char>)
    requires
        sound(thread_of(tool, id)),
    ensures
        sound(new_thread()),
        sound(thread_of(after_steps(tool, steps), id)),
    decreases steps.len(),
{
    lemma_turns_are_sound(new_thread(), None, Seq::empty(), Seq::empty());
    if steps.len() > 0 {
        conversations_stay_sound(tool, steps.drop_last(), id);
        let thread = thread_of(after_steps(tool, steps.drop_last()), id);
        match steps.last() {
            StepView::Prompt { id: spoken, context, prompt } => {
                lemma_turns_are_sound(thread, context, prompt, prompt);
            },
            StepView::Reply { id: spoken, content } => {
                lemma_turns_are_sound(thread, None, content, content);
            },
            StepView::Input(_) => {},
        }
    }
}

/// A call of a declared alias is refused for its limit exactly when the limit has been reached, and
/// an alias without a limit never is.
pub proof fn limits_are_the_only_brake(tool: ToolView, alias: Seq<char>)
    requires
        tool.config is Some,
        tool.config->0.dom().contains(alias),
    ensures
        refusal(tool, alias) is Some <==> limit_of(tool, alias) is Some && calls_made(tool, alias)
            >= limit_of(tool, alias)->0,
        within_limits(tool) && refusal(tool, alias) is Some ==> calls_made(tool, alias) == limit_of(
            tool,
            alias,
        )->0,
{
}

/// Conversations and the counting of calls have nothing to do with each other.
pub proof fn conversations_are_not_counted(
    tool: ToolView,
    id: Seq<char>,
    context: Option<Seq<char>>,
    text: Seq<char>,
    input: JsonView,
)
    ensures
        prompted(tool, id, context, text).counts == tool.counts,
        prompted(tool, id, context, text).config == tool.config,
        replied(tool, id, text).counts == tool.counts,
        replied(tool, id, text).config == tool.config,
        admission(prompted(tool, id, context, text), input) == admission(tool, input),
        admission(replied(tool, id, text), input) == admission(tool, input),
{
}

/// A call that names the conversation of an earlier one continues it: the model is sent what it was
/// sent then, its own reply, and the new prompt.
pub proof fn conversations_continue(
    tool: ToolView,
    first: AdmissionView,
    reply: Seq<char>,
    second: AdmissionView,
    key1: Seq<char>,
    key2: Seq<char>,
    id: Seq<char>,
)
    ensures
        ({
            let sent = outgoing(tool, first, key1, id).messages;
            let then = replied(
                prompted(tool, id, first.call.context, first.call.prompt),
                id,
                reply,
            );
            &&& outgoing(then, second, key2, id).messages == sent.push(
                MessageView { role: Role::Assistant, content: reply },
            ).push(MessageView { role: Role::User, content: second.call.prompt })
            &&& thread_of(then, id).call_count == thread_of(tool, id).call_count + 1
        }),
{
}

/// The prompt of a call that failed stays in its conversation, without a reply.
pub proof fn failed_calls_leave_their_prompt(
    tool: ToolView,
    first: AdmissionView,
    second: AdmissionView,
    key1: Seq<char>,
    key2: Seq<char>,
    id: Seq<char>,
)
    ensures
        ({
            let sent = outgoing(tool, first, key1, id).messages;
            let then = prompted(tool, id, first.call.context, first.call.prompt);
            &&& outgoing(then, second, key2, id).messages == sent.push(
                MessageView { role: Role::User, content: second.call.prompt },
            )
            &&& thread_of(then, id).call_count == thread_of(tool, id).call_count
        }),
{
}

/// A turn in one conversation leaves every other conversation as it is.
pub proof fn conversations_are_separate(
    tool: ToolView,
    id: Seq<char>,
    context: Option<Seq<char>>,
    text: Seq<char>,
    other: Seq<char>,
)
    requires
        other != id,
    ensures
        prompted(tool, id, context, text).threads.dom().contains(other) == tool.threads.dom().contains(
            other,
        ),
        thread_of(prompted(tool, id, context, text), other) == thread_of(tool, other),
        replied(tool, id, text).threads.dom().contains(other) == tool.threads.dom().contains(other),
        thread_of(replied(tool, id, text), other) == thread_of(tool, other),
{
}

/// The result of a call names the conversation, and an input that gives that name back asks for the
/// same conversation.
pub proof fn results_name_their_conversation(call: PendingView, response: JsonView, input: JsonView)
    requires
        read_input(input) is Ok,
        member(input, "thread_id"@) == member(call_result(call, response), "thread_id"@),
    ensures
        read_input(input)->Ok_0.thread_id == Some(call.thread_id),
{
    let reply = reply_in(response);
    results_can_be_read_back(
        reply.content,
        call.thread_id,
        call.model,
        call.alias,
        reply.tokens_in as u64,
        reply.tokens_out as u64,
    );
}

/// A call from end to end. What was sent and what came back is in its conversation, which has one
/// reply more; a limited alias has one call more to its name; and the costs of the alias have grown
/// by what its provider charges for the tokens.
pub proof fn a_call_from_end_to_end(
    tool: ToolView,
    costs: Map<Seq<char>, EntryView>,
    input: JsonView,
    api_key: Seq<char>,
    id: Seq<char>,
    response: JsonView,
)
    requires
        admission(tool, input) is Ok,
    ensures
        ({
            let admitted = admission(tool, input)->Ok_0;
            let alias = admitted.call.alias;
            let ready = after_admission(tool, input);
            let call = outgoing(ready, admitted, api_key, id);
            let asked = prompted(ready, id, admitted.call.context, admitted.call.prompt);
            let reply = reply_in(response);
            let done = replied(asked, call.thread_id, reply.content);
            let charged = posted(costs, call_report(call, response));
            &&& thread_of(asked, id).messages == call.messages
            &&& thread_of(done, id).messages == call.messages.push(
                MessageView { role: Role::Assistant, content: reply.content },
            )
            &&& thread_of(done, id).call_count == thread_of(tool, id).call_count + 1
            &&& limit_of(tool, alias) is Some ==> calls_made(done, alias) == calls_made(tool, alias) + 1
            &&& limit_of(tool, alias) is None ==> calls_made(done, alias) == calls_made(tool, alias)
            &&& costs_of(charged, alias).calls == costs_of(costs, alias).calls + 1
            &&& costs_of(charged, alias).cost == costs_of(costs, alias).cost + cost_of(
                tool.config->0[alias].provider,
                reply.tokens_in,
                reply.tokens_out,
            )
        }),
{
}

/// Why a call of an alias is refused, and what is said: that nothing is declared, that this alias is
/// not among those that are, or that it was called as often as it may be. Any other call goes
/// through.
pub proof fn refusals_say_why(
    tool: ToolView,
    aliases: Map<Seq<char>, AliasView>,
    alias: Seq<char>,
    max: nat,
)
    ensures
        tool.config is None ==> refusal(tool, alias) == Some(
            ErrorView::NotAvailable(
                "No [models] section in config.toml. Define [models.aliases.<name>] to use llm_call."@,
            ),
        ),
        tool.config == Some(aliases) && !aliases.dom().contains(alias) ==> refusal(tool, alias) == Some(
            ErrorView::InvalidInput(
                "Unknown alias '"@ + alias + "'. Available: ["@ + name_list(aliases) + "]"@,
            ),
        ),
        tool.config == Some(aliases) && aliases.dom().contains(alias) ==> {
            &&& aliases[alias].max_calls is None ==> refusal(tool, alias) is None
            &&& aliases[alias].max_calls == Some(max) && max == 0 ==> refusal(tool, alias) is Some
            &&& aliases[alias].max_calls == Some(max) && max > 0 && !tool.counts.dom().contains(alias)
                ==> refusal(tool, alias) is None
            &&& aliases[alias].max_calls == Some(max) && tool.counts.dom().contains(alias) ==> (
            refusal(tool, alias) is None <==> tool.counts[alias] < max)
            &&& aliases[alias].max_calls == Some(max) && refusal(tool, alias) is Some ==> refusal(
                tool,
                alias,
            ) == Some(
                ErrorView::NotAvailable(
                    "Alias '"@ + alias + "' has reached its session limit of "@ + decimal(max)
                        + " calls."@,
                ),
            )
        },
{
}

/// An input that cannot be read is answered what is wrong with it, before anything else is looked
/// at; one that can be read is refused for what speaks against its alias, and otherwise admitted with
/// what it asks for and with the alias as it is declared.
pub proof fn inputs_are_judged_in_order(
    tool: ToolView,
    input: JsonView,
    call: InputView,
    error: ErrorView,
)
    ensures
        read_input(input) == Err::<InputView, ErrorView>(error) ==> admission(tool, input) == Err::<
            AdmissionView,
            ErrorView,
        >(error),
        read_input(input) == Ok::<InputView, ErrorView>(call) && refusal(tool, call.alias) == Some(
            error,
        ) ==> admission(tool, input) == Err::<AdmissionView, ErrorView>(error),
        read_input(input) == Ok::<InputView, ErrorView>(call) && refusal(tool, call.alias) is None ==> {
            &&& admission(tool, input) is Ok
            &&& admission(tool, input)->Ok_0.call == call
            &&& tool.config is Some
            &&& tool.config->0.dom().contains(call.alias)
            &&& admission(tool, input)->Ok_0.alias_cfg == tool.config->0[call.alias]
        },
{
}

/// An admitted call is counted once where its alias has a limit, and not at all where it has none;
/// the counts of all other aliases, the conversations and the configuration stay.
pub proof fn admissions_are_counted_once(tool: ToolView, input: JsonView, other: Seq<char>)
    requires
        admission(tool, input) is Ok,
    ensures
        ({
            let alias = admission(tool, input)->Ok_0.call.alias;
            let limit = admission(tool, input)->Ok_0.alias_cfg.max_calls;
            let after = after_admission(tool, input);
            &&& limit is None ==> after == tool
            &&& limit is Some ==> after.counts.dom() == tool.counts.dom().insert(alias)
            &&& limit is Some && tool.counts.dom().contains(alias) ==> after.counts[alias]
                == tool.counts[alias] + 1
            &&& limit is Some && !tool.counts.dom().contains(alias) ==> after.counts[alias] == 1
            &&& other != alias && tool.counts.dom().contains(other) ==> after.counts[other]
                == tool.counts[other]
            &&& after.threads == tool.threads
            &&& after.config == tool.config
        }),
{
}

/// How often an alias was called is its count, which is nothing where there is none; its limit is the
/// one that is declared.
pub proof fn counts_and_limits_are_what_is_kept(
    tool: ToolView,
    aliases: Map<Seq<char>, AliasView>,
    alias: Seq<char>,
)
    ensures
        tool.counts.dom().contains(alias) ==> calls_made(tool, alias) == tool.counts[alias],
        !tool.counts.dom().contains(alias) ==> calls_made(tool, alias) == 0,
        tool.config == Some(aliases) && aliases.dom().contains(alias) ==> limit_of(tool, alias)
            == aliases[alias].max_calls,
        tool.config == Some(aliases) && !aliases.dom().contains(alias) ==> limit_of(tool, alias) is None,
        tool.config is None ==> limit_of(tool, alias) is None,
{
}

/// A call that goes out says what was asked: it has the alias, the number of tokens, the provider and
/// the model of the admitted call, and the key and the conversation that it was given. It is sent all
/// that was said in that conversation and the prompt; where nothing was said, the context, if there
/// is one, and the prompt.
pub proof fn calls_say_what_was_asked(
    tool: ToolView,
    admitted: AdmissionView,
    api_key: Seq<char>,
    id: Seq<char>,
    context: Seq<char>,
)
    ensures
        ({
            let call = outgoing(tool, admitted, api_key, id);
            let prompt = MessageView { role: Role::User, content: admitted.call.prompt };
            let begun = tool.threads.dom().contains(id) && tool.threads[id].messages.len() > 0;
            &&& call.alias == admitted.call.alias
            &&& call.max_tokens == admitted.call.max_tokens
            &&& call.provider == admitted.alias_cfg.provider
            &&& call.model == admitted.alias_cfg.model
            &&& call.api_key == api_key
            &&& call.thread_id == id
            &&& call.base_url == base_url_of(call.provider)
            &&& begun ==> call.messages == tool.threads[id].messages.push(prompt)
            &&& !begun && admitted.call.context is None ==> call.messages == seq![prompt]
            &&& !begun && admitted.call.context == Some(context) ==> call.messages == seq![
                MessageView { role: Role::System, content: context },
                prompt,
            ]
        }),
{
    if thread_of(tool, id).messages.len() == 0 {
        first_turns_say_context_and_prompt(thread_of(tool, id), context, admitted.call.prompt);
    }
}

/// When the user has spoken, what the call sends is what the conversation holds, and nothing else has
/// changed: no other conversation, no count, no declaration, and no number of replies.
pub proof fn prompts_are_kept(
    tool: ToolView,
    admitted: AdmissionView,
    api_key: Seq<char>,
    id: Seq<char>,
)
    ensures
        ({
            let after = prompted(tool, id, admitted.call.context, admitted.call.prompt);
            &&& after.threads.dom() == tool.threads.dom().insert(id)
            &&& after.threads[id].messages == outgoing(tool, admitted, api_key, id).messages
            &&& tool.threads.dom().contains(id) ==> after.threads[id].call_count
                == tool.threads[id].call_count
            &&& !tool.threads.dom().contains(id) ==> after.threads[id].call_count == 0
            &&& after.threads.remove(id) == tool.threads.remove(id)
            &&& after.counts == tool.counts
            &&& after.config == tool.config
        }),
{
    let after = prompted(tool, id, admitted.call.context, admitted.call.prompt);
    assert(after.threads.remove(id) =~= tool.threads.remove(id));
}

/// When the model has replied, its conversation holds the reply behind what was said and counts it,
/// and nothing else has changed; where there is no such conversation, nothing has.
pub proof fn replies_are_kept(tool: ToolView, id: Seq<char>, content: Seq<char>)
    ensures
        !tool.threads.dom().contains(id) ==> replied(tool, id, content) == tool,
        tool.threads.dom().contains(id) ==> {
            let after = replied(tool, id, content);
            &&& after.threads.dom() == tool.threads.dom()
            &&& after.threads[id].messages == tool.threads[id].messages.push(
                MessageView { role: Role::Assistant, content },
            )
            &&& after.threads[id].call_count == tool.threads[id].call_count + 1
            &&& after.threads.remove(id) == tool.threads.remove(id)
            &&& after.counts == tool.counts
            &&& after.config == tool.config
        },
{
    let after = replied(tool, id, content);
    assert(after.threads.remove(id) =~= tool.threads.remove(id));
    if tool.threads.dom().contains(id) {
        assert(after.threads.dom() =~= tool.threads.dom());
    }
}

/// A conversation is found under its ID, and one that was never spoken in has no messages.
pub proof fn conversations_are_found_by_their_ids(tool: ToolView, id: Seq<char>)
    ensures
        tool.threads.dom().contains(id) ==> thread_of(tool, id) == tool.threads[id],
        !tool.threads.dom().contains(id) ==> thread_of(tool, id).messages.len() == 0 && thread_of(
            tool,
            id,
        ).call_count == 0,
{
}

/// What is reported of a call is its alias, the tokens that the response counts, and what the
/// provider charges for each of them; what is handed back is what the model said, with the
/// conversation, the model and the alias of the call and the same numbers of tokens.
pub proof fn reports_and_results_tell_of_the_call(call: PendingView, response: JsonView)
    ensures
        ({
            let reply = reply_in(response);
            let report = call_report(call, response);
            let result = call_result(call, response);
            &&& report.alias == call.alias
            &&& report.tokens_in == reply.tokens_in
            &&& report.tokens_out == reply.tokens_out
            &&& report.cost == reply.tokens_in * cost_of(call.provider, 1, 0) + reply.tokens_out
                * cost_of(call.provider, 0, 1)
            &&& member(result, "content"@) == Some(JsonView::Text(reply.content))
            &&& member(result, "thread_id"@) == Some(JsonView::Text(call.thread_id))
            &&& member(result, "model_used"@) == Some(JsonView::Text(call.model))
            &&& member(result, "alias"@) == Some(JsonView::Text(call.alias))
            &&& member(member(result, "tokens_used"@)->0, "input"@) == Some(
                JsonView::PosInt(reply.tokens_in as u64),
            )
            &&& member(member(result, "tokens_used"@)->0, "output"@) == Some(
                JsonView::PosInt(reply.tokens_out as u64),
            )
            &&& reply.tokens_in <= u64::MAX && reply.tokens_out <= u64::MAX
        }),
{
    let reply = reply_in(response);
    results_can_be_read_back(
        reply.content,
        call.thread_id,
        call.model,
        call.alias,
        reply.tokens_in as u64,
        reply.tokens_out as u64,
    );
    a_million_tokens_cost_the_price(call.provider);
}

/// A call can be finished exactly where there is room for its report, and its conversation, if it is
/// still there, was not replied to as often as 32 bits can count.
pub proof fn only_full_counters_stop_a_call(
    tool: ToolView,
    costs: Map<Seq<char>, EntryView>,
    call: PendingView,
    response: JsonView,
)
    ensures
        tool.threads.dom().contains(call.thread_id) ==> (can_be_finished(tool, costs, call, response)
            <==> has_room(costs, call_report(call, response)) && tool.threads[call.thread_id].call_count
            < 0xFFFF_FFFF),
        !tool.threads.dom().contains(call.thread_id) ==> (can_be_finished(tool, costs, call, response)
            <==> has_room(costs, call_report(call, response))),
{
}

/// Who has no key is told for which alias, and where to put one.
pub proof fn missing_keys_are_named(alias: Seq<char>)
    ensures
        no_key_text(alias) == "No API key for alias '"@ + alias
            + "'. Set api_key_env or api_key in [models.aliases."@ + alias + "]."@,
{
}

/// Admitted and pending calls are seen with all that they hold.
pub proof fn calls_are_seen_whole(admitted: Admission, call: PendingCall)
    ensures
        admitted@.call == admitted.call@,
        admitted@.alias_cfg == admitted.alias_cfg@,
        call@.alias == call.alias@,
        call@.provider == call.provider@,
        call@.model == call.model@,
        call@.api_key == call.api_key@,
        call@.base_url == call.base_url@,
        call@.thread_id == call.thread_id@,
        call@.messages == message_views(call.messages@),
        call@.max_tokens == call.max_tokens,
{
}

} // verus!
