use vstd::prelude::*;

use crate::cipher::{decrypt_b64_spec, KeyringAesGcmCipher};
use crate::entity::{AgentProvider, AgentRow, ChatMessageRowView};
use crate::error::AppError;
use crate::store::{config_with_agent_id, first_match, has_match, Store, StoreView};

verus! {

// ---------------------------------------------------------------------------
// Role canonicalization. Stored roles are free-form text; each provider has
// a closed role vocabulary, and canonicalization is total: any unrecognized
// role maps to the user role rather than failing.
// ---------------------------------------------------------------------------

/// Google vocabulary: `model` stays `model`; everything else is `user`.
pub open spec fn google_role_spec(role: Seq<char>) -> Seq<char> {
    if role == "model"@ {
        "model"@
    } else {
        "user"@
    }
}

/// Groq (OpenAI-compatible) vocabulary: `model` becomes `assistant`;
/// everything else — `user` included — is `user`.
pub open spec fn groq_role_spec(role: Seq<char>) -> Seq<char> {
    if role == "model"@ {
        "assistant"@
    } else {
        "user"@
    }
}

/// Canonicalize a stored role into the Google vocabulary.
pub fn google_canonical_role(role: &str) -> (r: &'static str)
    ensures
        r@ == google_role_spec(role@),
{
    if crate::text::str_eq(role, "model") {
        "model"
    } else {
        "user"
    }
}

/// Canonicalize a stored role into the Groq vocabulary.
pub fn groq_canonical_role(role: &str) -> (r: &'static str)
    ensures
        r@ == groq_role_spec(role@),
{
    if crate::text::str_eq(role, "model") {
        "assistant"
    } else {
        "user"
    }
}

// ---------------------------------------------------------------------------
// Generation parameters: the decrypted API key plus the provider-shaped
// conversation history.
// ---------------------------------------------------------------------------

/// One history entry as a provider sees it.
#[verifier::ext_equal]
pub struct ParamsMessageView {
    pub role: Seq<char>,
    pub content: Seq<char>,
}

pub struct GoogleTextGenParamsMessage {
    pub role: String,
    pub content: String,
}

impl View for GoogleTextGenParamsMessage {
    type V = ParamsMessageView;

    open spec fn view(&self) -> ParamsMessageView {
        ParamsMessageView { role: self.role@, content: self.content@ }
    }
}

pub struct GoogleTextGenParams {
    pub api_key: String,
    pub messages: Vec<GoogleTextGenParamsMessage>,
}

#[verifier::ext_equal]
pub struct TextGenParamsView {
    pub api_key: Seq<char>,
    pub messages: Seq<ParamsMessageView>,
}

impl View for GoogleTextGenParams {
    type V = TextGenParamsView;

    open spec fn view(&self) -> TextGenParamsView {
        TextGenParamsView {
            api_key: self.api_key@,
            messages: self.messages@.map_values(|m: GoogleTextGenParamsMessage| m@),
        }
    }
}

pub struct GroqTextGenParamsMessage {
    pub role: String,
    pub content: String,
}

impl View for GroqTextGenParamsMessage {
    type V = ParamsMessageView;

    open spec fn view(&self) -> ParamsMessageView {
        ParamsMessageView { role: self.role@, content: self.content@ }
    }
}

pub struct GroqTextGenParams {
    pub api_key: String,
    pub messages: Vec<GroqTextGenParamsMessage>,
}

impl View for GroqTextGenParams {
    type V = TextGenParamsView;

    open spec fn view(&self) -> TextGenParamsView {
        TextGenParamsView {
            api_key: self.api_key@,
            messages: self.messages@.map_values(|m: GroqTextGenParamsMessage| m@),
        }
    }
}

/// One incremental unit of generated text delivered by a provider stream.
pub struct AgentTextGenResult {
    pub text: String,
}

impl View for AgentTextGenResult {
    type V = Seq<char>;

    open spec fn view(&self) -> Seq<char> {
        self.text@
    }
}

impl AgentTextGenResult {
    pub fn clone_result(&self) -> (r: AgentTextGenResult)
        ensures
            r@ == self@,
    {
        AgentTextGenResult { text: self.text.clone() }
    }
}

/// The abstract value of a sequence of stream items.
pub open spec fn items_view(items: Seq<Result<AgentTextGenResult, AppError>>) -> Seq<
    Result<Seq<char>, AppError>,
> {
    items.map_values(
        |it: Result<AgentTextGenResult, AppError>| match it {
            Ok(f) => Ok(f@),
            Err(e) => Err(e),
        },
    )
}

pub proof fn lemma_items_view_add(
    a: Seq<Result<AgentTextGenResult, AppError>>,
    b: Seq<Result<AgentTextGenResult, AppError>>,
)
    ensures
        items_view(a + b) == items_view(a) + items_view(b),
{
    assert forall|j: int| 0 <= j < (a + b).len() implies items_view(a + b)[j] == (items_view(a)
        + items_view(b))[j] by {
        if j < a.len() {
            assert((a + b)[j] == a[j]);
        } else {
            assert((a + b)[j] == b[j - a.len()]);
        }
    }
    assert(items_view(a + b) =~= items_view(a) + items_view(b));
}

/// Parameters for whichever provider the agent targets.
pub enum AgentTextGenParams {
    Google(GoogleTextGenParams),
    Groq(GroqTextGenParams),
}

impl View for AgentTextGenParams {
    type V = TextGenParamsView;

    open spec fn view(&self) -> TextGenParamsView {
        match self {
            AgentTextGenParams::Google(p) => p@,
            AgentTextGenParams::Groq(p) => p@,
        }
    }
}

/// The message a user-authored string appends to a parameter object.
pub open spec fn user_message_view(message: Seq<char>) -> ParamsMessageView {
    ParamsMessageView { role: "user"@, content: message }
}

/// Append a single user-authored message onto an in-memory parameter object
/// without a storage round trip.
pub trait AgentTextGenParamsApi {
    spec fn messages_view(&self) -> Seq<ParamsMessageView>;

    spec fn api_key_view(&self) -> Seq<char>;

    /// Which provider's wire shape these parameters are for.
    spec fn provider(&self) -> AgentProvider;

    fn push_message_str(&mut self, message: &str)
        ensures
            final(self).messages_view() == old(self).messages_view().push(
                user_message_view(message@),
            ),
            final(self).api_key_view() == old(self).api_key_view(),
            final(self).provider() == old(self).provider(),
    ;
}

impl AgentTextGenParamsApi for GoogleTextGenParams {
    open spec fn messages_view(&self) -> Seq<ParamsMessageView> {
        self@.messages
    }

    open spec fn api_key_view(&self) -> Seq<char> {
        self@.api_key
    }

    open spec fn provider(&self) -> AgentProvider {
        AgentProvider::Google
    }

    fn push_message_str(&mut self, message: &str) {
        self.messages.push(
            GoogleTextGenParamsMessage { role: "user".to_owned(), content: message.to_owned() },
        );
        proof {
            assert(self.messages_view() =~= old(self).messages_view().push(
                user_message_view(message@),
            ));
        }
    }
}

impl AgentTextGenParamsApi for GroqTextGenParams {
    open spec fn messages_view(&self) -> Seq<ParamsMessageView> {
        self@.messages
    }

    open spec fn api_key_view(&self) -> Seq<char> {
        self@.api_key
    }

    open spec fn provider(&self) -> AgentProvider {
        AgentProvider::Groq
    }

    fn push_message_str(&mut self, message: &str) {
        self.messages.push(
            GroqTextGenParamsMessage { role: "user".to_owned(), content: message.to_owned() },
        );
        proof {
            assert(self.messages_view() =~= old(self).messages_view().push(
                user_message_view(message@),
            ));
        }
    }
}

impl AgentTextGenParamsApi for AgentTextGenParams {
    open spec fn messages_view(&self) -> Seq<ParamsMessageView> {
        self@.messages
    }

    open spec fn api_key_view(&self) -> Seq<char> {
        self@.api_key
    }

    open spec fn provider(&self) -> AgentProvider {
        match self {
            AgentTextGenParams::Google(_) => AgentProvider::Google,
            AgentTextGenParams::Groq(_) => AgentProvider::Groq,
        }
    }

    fn push_message_str(&mut self, message: &str) {
        match self {
            AgentTextGenParams::Google(p) => p.push_message_str(message),
            AgentTextGenParams::Groq(p) => p.push_message_str(message),
        }
    }
}

// ---------------------------------------------------------------------------
// Agents.
// ---------------------------------------------------------------------------

/// An agent targeting Google's Gemini streaming endpoint.
pub struct GoogleAgent {
    pub id: u128,
    pub model: String,
}

/// An agent targeting Groq's OpenAI-compatible streaming endpoint.
pub struct GroqAgent {
    pub id: u128,
    pub model: String,
}

/// The provider-polymorphic agent: one variant per provider.
pub enum Agent {
    Gemini(GoogleAgent),
    Groq(GroqAgent),
}

impl Agent {
    pub open spec fn of_row_spec(row: AgentRow) -> Agent {
        match row.provider {
            AgentProvider::Google => Agent::Gemini(GoogleAgent { id: row.id, model: row.model }),
            AgentProvider::Groq => Agent::Groq(GroqAgent { id: row.id, model: row.model }),
        }
    }

    /// The agent an agent row configures.
    pub fn from_row(row: AgentRow) -> (r: Agent)
        ensures
            r == Agent::of_row_spec(row),
    {
        match row.provider {
            AgentProvider::Google => Agent::Gemini(GoogleAgent { id: row.id, model: row.model }),
            AgentProvider::Groq => Agent::Groq(GroqAgent { id: row.id, model: row.model }),
        }
    }

    pub open spec fn agent_id(&self) -> int {
        match self {
            Agent::Gemini(a) => a.id as int,
            Agent::Groq(a) => a.id as int,
        }
    }

    /// Which provider this agent targets.
    pub open spec fn provider(&self) -> AgentProvider {
        match self {
            Agent::Gemini(_) => AgentProvider::Google,
            Agent::Groq(_) => AgentProvider::Groq,
        }
    }
}

// ---------------------------------------------------------------------------
// Building generation parameters from stored state.
// ---------------------------------------------------------------------------

/// The ciphertext stored for an agent: the configured key text, an empty
/// text standing in for a cleared or absent column, or nothing when no
/// configuration row exists.
pub open spec fn stored_ciphertext(s: StoreView, agent_id: int) -> Option<Seq<char>> {
    if has_match(s.agent_configs, config_with_agent_id(agent_id)) {
        Some(
            match s.agent_configs[first_match(s.agent_configs, config_with_agent_id(agent_id))].api_key {
                Some(k) => k,
                None => Seq::empty(),
            },
        )
    } else {
        None
    }
}

/// The history of one chat, in creation order.
pub open spec fn chat_history(s: StoreView, chat_id: int) -> Seq<ChatMessageRowView> {
    s.chat_messages.filter(|m: ChatMessageRowView| m.chat_id == chat_id)
}

/// The history mapped into the Google message shape.
pub open spec fn google_history(msgs: Seq<ChatMessageRowView>) -> Seq<ParamsMessageView> {
    msgs.map_values(
        |m: ChatMessageRowView| ParamsMessageView {
            role: google_role_spec(m.role),
            content: m.content,
        },
    )
}

/// The history mapped into the Groq message shape.
pub open spec fn groq_history(msgs: Seq<ChatMessageRowView>) -> Seq<ParamsMessageView> {
    msgs.map_values(
        |m: ChatMessageRowView| ParamsMessageView {
            role: groq_role_spec(m.role),
            content: m.content,
        },
    )
}

/// What building generation parameters yields, given the ciphertext lookup
/// and the decryption outcome: no configuration row means no parameters
/// (the caller must treat that as "agent not configured"), a failing
/// decryption is an error, and otherwise the parameters hold the decrypted
/// key and the provider-shaped history.
pub open spec fn params_outcome(
    s: StoreView,
    key: Seq<u8>,
    agent_id: int,
    history: Seq<ParamsMessageView>,
    r: Result<Option<TextGenParamsView>, AppError>,
) -> bool {
    match stored_ciphertext(s, agent_id) {
        None => r == Ok::<Option<TextGenParamsView>, AppError>(None),
        Some(ct) => match decrypt_b64_spec(key, ct) {
            Err(e) => r == Err::<Option<TextGenParamsView>, AppError>(e),
            Ok(pt) => r == Ok::<Option<TextGenParamsView>, AppError>(
                Some(TextGenParamsView { api_key: pt, messages: history }),
            ),
        },
    }
}

impl GoogleAgent {
    /// Build Google generation parameters: look up this agent's secret
    /// configuration, decrypt the stored key, and shape the chat history.
    pub fn create_text_gen_params(
        &self,
        store: &Store,
        cipher: &KeyringAesGcmCipher,
        chat_id: u128,
    ) -> (r: Result<Option<GoogleTextGenParams>, AppError>)
        requires
            cipher.wf(),
        ensures
            params_outcome(
                store@,
                cipher.key(),
                self.id as int,
                google_history(chat_history(store@, chat_id as int)),
                match r {
                    Ok(Some(ref p)) => Ok(Some(p@)),
                    Ok(None) => Ok(None),
                    Err(e) => Err(e),
                },
            ),
    {
        let config = match store.get_agent_config(self.id) {
            None => {
                return Ok(None);
            },
            Some(c) => c,
        };
        let ciphertext = match &config.api_key {
            Some(k) => k.clone(),
            None => String::new(),
        };
        let api_key = cipher.decrypt_base64_str(ciphertext.as_str())?;
        let history = store.get_chat_messages(chat_id);
        let ghost hist_v = chat_history(store@, chat_id as int);
        let n = history.len();
        let mut messages: Vec<GoogleTextGenParamsMessage> = Vec::new();
        let mut i: usize = 0;
        while i < n
            invariant
                0 <= i <= n,
                n == history.len(),
                history@.map_values(|m: crate::entity::ChatMessageRow| m@) == hist_v,
                messages@.map_values(|m: GoogleTextGenParamsMessage| m@) == google_history(
                    hist_v.take(i as int),
                ),
            decreases n - i,
        {
            let row = &history[i];
            proof {
                assert(hist_v[i as int] == history@[i as int]@);
            }
            let role = google_canonical_role(row.role.as_str()).to_owned();
            let ghost before = messages@;
            messages.push(GoogleTextGenParamsMessage { role, content: row.content.clone() });
            proof {
                let f = |m: GoogleTextGenParamsMessage| m@;
                assert(before.map_values(f).len() == before.len());
                assert(google_history(hist_v.take(i as int)).len() == hist_v.take(i as int).len());
                assert(before.len() == i);
                assert(hist_v.take(i + 1) =~= hist_v.take(i as int).push(hist_v[i as int]));
                let msgs_new = messages@.map_values(f);
                assert(msgs_new.len() == i + 1);
                assert(msgs_new[i as int] == (ParamsMessageView {
                    role: google_role_spec(hist_v[i as int].role),
                    content: hist_v[i as int].content,
                }));
                assert forall|k: int| 0 <= k < i implies msgs_new[k] == google_history(
                    hist_v.take(i + 1),
                )[k] by {
                    assert(msgs_new[k] == before.map_values(f)[k]);
                }
                assert(messages@.map_values(|m: GoogleTextGenParamsMessage| m@) =~= google_history(
                    hist_v.take(i + 1),
                ));
            }
            i = i + 1;
        }
        proof {
            assert(hist_v.take(n as int) =~= hist_v);
        }
        Ok(Some(GoogleTextGenParams { api_key, messages }))
    }
}

impl GroqAgent {
    /// Build Groq generation parameters: look up this agent's secret
    /// configuration, decrypt the stored key, and shape the chat history.
    pub fn create_text_gen_params(
        &self,
        store: &Store,
        cipher: &KeyringAesGcmCipher,
        chat_id: u128,
    ) -> (r: Result<Option<GroqTextGenParams>, AppError>)
        requires
            cipher.wf(),
        ensures
            params_outcome(
                store@,
                cipher.key(),
                self.id as int,
                groq_history(chat_history(store@, chat_id as int)),
                match r {
                    Ok(Some(ref p)) => Ok(Some(p@)),
                    Ok(None) => Ok(None),
                    Err(e) => Err(e),
                },
            ),
    {
        let config = match store.get_agent_config(self.id) {
            None => {
                return Ok(None);
            },
            Some(c) => c,
        };
        let ciphertext = match &config.api_key {
            Some(k) => k.clone(),
            None => String::new(),
        };
        let api_key = cipher.decrypt_base64_str(ciphertext.as_str())?;
        let history = store.get_chat_messages(chat_id);
        let ghost hist_v = chat_history(store@, chat_id as int);
        let n = history.len();
        let mut messages: Vec<GroqTextGenParamsMessage> = Vec::new();
        let mut i: usize = 0;
        while i < n
            invariant
                0 <= i <= n,
                n == history.len(),
                history@.map_values(|m: crate::entity::ChatMessageRow| m@) == hist_v,
                messages@.map_values(|m: GroqTextGenParamsMessage| m@) == groq_history(
                    hist_v.take(i as int),
                ),
            decreases n - i,
        {
            let row = &history[i];
            proof {
                assert(hist_v[i as int] == history@[i as int]@);
            }
            let role = groq_canonical_role(row.role.as_str()).to_owned();
            let ghost before = messages@;
            messages.push(GroqTextGenParamsMessage { role, content: row.content.clone() });
            proof {
                let f = |m: GroqTextGenParamsMessage| m@;
                assert(before.map_values(f).len() == before.len());
                assert(groq_history(hist_v.take(i as int)).len() == hist_v.take(i as int).len());
                assert(before.len() == i);
                assert(hist_v.take(i + 1) =~= hist_v.take(i as int).push(hist_v[i as int]));
                let msgs_new = messages@.map_values(f);
                assert(msgs_new.len() == i + 1);
                assert(msgs_new[i as int] == (ParamsMessageView {
                    role: groq_role_spec(hist_v[i as int].role),
                    content: hist_v[i as int].content,
                }));
                assert forall|k: int| 0 <= k < i implies msgs_new[k] == groq_history(
                    hist_v.take(i + 1),
                )[k] by {
                    assert(msgs_new[k] == before.map_values(f)[k]);
                }
                assert(messages@.map_values(|m: GroqTextGenParamsMessage| m@) =~= groq_history(
                    hist_v.take(i + 1),
                ));
            }
            i = i + 1;
        }
        proof {
            assert(hist_v.take(n as int) =~= hist_v);
        }
        Ok(Some(GroqTextGenParams { api_key, messages }))
    }
}

impl Agent {
    /// Build generation parameters for whichever provider this agent targets.
    pub fn create_text_gen_params(
        &self,
        store: &Store,
        cipher: &KeyringAesGcmCipher,
        chat_id: u128,
    ) -> (r: Result<Option<AgentTextGenParams>, AppError>)
        requires
            cipher.wf(),
        ensures
            params_outcome(
                store@,
                cipher.key(),
                self.agent_id(),
                match self {
                    Agent::Gemini(_) => google_history(chat_history(store@, chat_id as int)),
                    Agent::Groq(_) => groq_history(chat_history(store@, chat_id as int)),
                },
                match r {
                    Ok(Some(ref p)) => Ok(Some(p@)),
                    Ok(None) => Ok(None),
                    Err(e) => Err(e),
                },
            ),
            r matches Ok(Some(p)) ==> p.provider() == self.provider(),
    {
        match self {
            Agent::Gemini(agent) => match agent.create_text_gen_params(store, cipher, chat_id) {
                Ok(Some(p)) => Ok(Some(AgentTextGenParams::Google(p))),
                Ok(None) => Ok(None),
                Err(e) => Err(e),
            },
            Agent::Groq(agent) => match agent.create_text_gen_params(store, cipher, chat_id) {
                Ok(Some(p)) => Ok(Some(AgentTextGenParams::Groq(p))),
                Ok(None) => Ok(None),
                Err(e) => Err(e),
            },
        }
    }
}

// ---------------------------------------------------------------------------
// Request building: the provider-specific JSON body shapes and endpoint
// URLs. Serialization of these plain shapes is the HTTP caller's concern.
// ---------------------------------------------------------------------------

pub struct GoogleTextGenRequestBodyContentPart {
    pub text: String,
}

pub struct GoogleTextGenRequestBodyContent {
    pub role: String,
    pub parts: Vec<GoogleTextGenRequestBodyContentPart>,
}

#[verifier::ext_equal]
pub struct GoogleContentView {
    pub role: Seq<char>,
    pub parts: Seq<Seq<char>>,
}

impl View for GoogleTextGenRequestBodyContent {
    type V = GoogleContentView;

    open spec fn view(&self) -> GoogleContentView {
        GoogleContentView {
            role: self.role@,
            parts: self.parts@.map_values(|p: GoogleTextGenRequestBodyContentPart| p.text@),
        }
    }
}

pub struct GoogleTextGenRequestBody {
    pub contents: Vec<GoogleTextGenRequestBodyContent>,
}

pub struct GroqTextGenRequestBodyMessage {
    pub role: String,
    pub content: String,
}

impl View for GroqTextGenRequestBodyMessage {
    type V = ParamsMessageView;

    open spec fn view(&self) -> ParamsMessageView {
        ParamsMessageView { role: self.role@, content: self.content@ }
    }
}

pub struct GroqTextGenRequestBody {
    pub messages: Vec<GroqTextGenRequestBodyMessage>,
    pub model: String,
    pub stream: bool,
    pub include_reasoning: bool,
}

/// The Google content entry one history message becomes: its role, and its
/// content as the single part.
pub open spec fn google_content_of(m: ParamsMessageView) -> GoogleContentView {
    GoogleContentView { role: m.role, parts: seq![m.content] }
}

impl GoogleAgent {
    /// The streaming endpoint for this agent's model.
    pub fn text_gen_url(&self) -> (r: String)
        ensures
            r@ == "https://generativelanguage.googleapis.com/v1beta/models/"@ + self.model@
                + ":streamGenerateContent?alt=sse"@,
    {
        let mut url =
            "https://generativelanguage.googleapis.com/v1beta/models/".to_owned();
        url.append(self.model.as_str());
        url.append(":streamGenerateContent?alt=sse");
        url
    }

    /// The request body for one generation call: each history message as a
    /// content entry with a single text part.
    pub fn build_text_gen_body(&self, params: &GoogleTextGenParams) -> (r: GoogleTextGenRequestBody)
        ensures
            r.contents@.map_values(|c: GoogleTextGenRequestBodyContent| c@)
                == params@.messages.map_values(|m: ParamsMessageView| google_content_of(m)),
    {
        let n = params.messages.len();
        let mut contents: Vec<GoogleTextGenRequestBodyContent> = Vec::new();
        let ghost target = params@.messages.map_values(|m: ParamsMessageView| google_content_of(m));
        let mut i: usize = 0;
        while i < n
            invariant
                0 <= i <= n,
                n == params.messages.len(),
                target == params@.messages.map_values(
                    |m: ParamsMessageView| google_content_of(m),
                ),
                contents@.len() == i,
                forall|j: int|
                    0 <= j < i ==> #[trigger] contents@[j]@ == google_content_of(
                        params@.messages[j],
                    ),
            decreases n - i,
        {
            let m = &params.messages[i];
            let mut parts: Vec<GoogleTextGenRequestBodyContentPart> = Vec::new();
            parts.push(GoogleTextGenRequestBodyContentPart { text: m.content.clone() });
            let entry = GoogleTextGenRequestBodyContent { role: m.role.clone(), parts };
            proof {
                assert(params@.messages[i as int] == params.messages@[i as int]@);
                assert(entry@.parts =~= seq![params@.messages[i as int].content]);
            }
            contents.push(entry);
            i = i + 1;
        }
        proof {
            assert forall|j: int| 0 <= j < n implies contents@.map_values(
                |c: GoogleTextGenRequestBodyContent| c@,
            )[j] == target[j] by {
                assert(contents@.map_values(|c: GoogleTextGenRequestBodyContent| c@)[j]
                    == contents@[j]@);
            }
            assert(contents@.map_values(|c: GoogleTextGenRequestBodyContent| c@) =~= target);
        }
        GoogleTextGenRequestBody { contents }
    }
}

impl GroqAgent {
    /// The Groq OpenAI-compatible streaming endpoint.
    pub fn text_gen_url(&self) -> (r: String)
        ensures
            r@ == "https://api.groq.com/openai/v1/chat/completions"@,
    {
        "https://api.groq.com/openai/v1/chat/completions".to_owned()
    }

    /// The bearer token line carried in the authorization header.
    pub fn bearer_token(&self, api_key: &str) -> (r: String)
        ensures
            r@ == "Bearer "@ + api_key@,
    {
        let mut token = "Bearer ".to_owned();
        token.append(api_key);
        token
    }

    /// The request body for one generation call: the history verbatim, the
    /// model, and streaming switched on.
    pub fn build_text_gen_body(&self, params: &GroqTextGenParams) -> (r: GroqTextGenRequestBody)
        ensures
            r.messages@.map_values(|m: GroqTextGenRequestBodyMessage| m@) == params@.messages,
            r.model@ == self.model@,
            r.stream == true,
            r.include_reasoning == false,
    {
        let n = params.messages.len();
        let mut messages: Vec<GroqTextGenRequestBodyMessage> = Vec::new();
        let mut i: usize = 0;
        while i < n
            invariant
                0 <= i <= n,
                n == params.messages.len(),
                messages@.len() == i,
                forall|j: int|
                    0 <= j < i ==> #[trigger] messages@[j]@ == params@.messages[j],
            decreases n - i,
        {
            let m = &params.messages[i];
            proof {
                assert(params@.messages[i as int] == params.messages@[i as int]@);
            }
            messages.push(
                GroqTextGenRequestBodyMessage { role: m.role.clone(), content: m.content.clone() },
            );
            i = i + 1;
        }
        proof {
            assert forall|j: int| 0 <= j < n implies messages@.map_values(
                |m: GroqTextGenRequestBodyMessage| m@,
            )[j] == params@.messages[j] by {
                assert(messages@.map_values(|m: GroqTextGenRequestBodyMessage| m@)[j]
                    == messages@[j]@);
            }
            assert(messages@.map_values(|m: GroqTextGenRequestBodyMessage| m@)
                =~= params@.messages);
        }
        GroqTextGenRequestBody {
            messages,
            model: self.model.clone(),
            stream: true,
            include_reasoning: false,
        }
    }
}

// ---------------------------------------------------------------------------
// The administrative path for supplying an agent's API key.
// ---------------------------------------------------------------------------

/// What the user supplies when configuring an agent's key.
pub struct UpsertAgentConfigCmd {
    pub api_key: Option<String>,
}

/// What `str::trim` returns: the result depends on the characters alone.
pub uninterp spec fn trim_of(s: Seq<char>) -> Seq<char>;

/// Relies on `str::trim`: strips leading and trailing whitespace.
#[verifier::external_body]
fn str_trim(s: &str) -> (r: &str)
    ensures
        r@ == trim_of(s@),
{
    s.trim()
}

/// Store a user-supplied API key: a missing key upserts nothing into the
/// column; a key that is blank after trimming clears the secret by storing
/// the empty sentinel rather than deleting the row; anything else is
/// encrypted before it ever reaches the store, never stored in plaintext.
pub fn upsert_agent_config_cmd(
    store: &mut crate::store::Store,
    cipher: &KeyringAesGcmCipher,
    id: u128,
    upsert: UpsertAgentConfigCmd,
) -> (r: Result<u64, AppError>)
    requires
        cipher.wf(),
    ensures
        match upsert.api_key {
            None => {
                let out = crate::store::upsert_agent_config_spec(old(store)@, id as int, None);
                &&& final(store)@ == out.0
                &&& r == Ok::<u64, AppError>(out.1 as u64)
            },
            Some(ref k) => {
                if trim_of(k@).len() == 0 {
                    let out = crate::store::upsert_agent_config_spec(
                        old(store)@,
                        id as int,
                        Some(Seq::empty()),
                    );
                    &&& final(store)@ == out.0
                    &&& r == Ok::<u64, AppError>(out.1 as u64)
                } else {
                    match r {
                        Ok(_) => exists|ct: Seq<char>|
                            {
                                let out = crate::store::upsert_agent_config_spec(
                                    old(store)@,
                                    id as int,
                                    Some(ct),
                                );
                                &&& #[trigger] decrypt_b64_spec(cipher.key(), ct) == Ok::<
                                    Seq<char>,
                                    AppError,
                                >(trim_of(k@))
                                &&& final(store)@ == out.0
                                &&& r == Ok::<u64, AppError>(out.1 as u64)
                            },
                        Err(e) => {
                            &&& e == AppError::AesGcm
                            &&& *final(store) == *old(store)
                        },
                    }
                }
            },
        },
{
    match upsert.api_key {
        None => {
            let affected = store.upsert_agent_config(
                id,
                crate::store::UpsertAgentConfig { api_key: None },
            );
            Ok(affected)
        },
        Some(k) => {
            let trimmed = str_trim(k.as_str());
            if trimmed.is_empty() {
                let affected = store.upsert_agent_config(
                    id,
                    crate::store::UpsertAgentConfig { api_key: Some(String::new()) },
                );
                Ok(affected)
            } else {
                let ct = match cipher.encrypt_str_base64(trimmed) {
                    Ok(ct) => ct,
                    Err(e) => {
                        return Err(e);
                    },
                };
                let ghost ct_v = ct@;
                let affected = store.upsert_agent_config(
                    id,
                    crate::store::UpsertAgentConfig { api_key: Some(ct) },
                );
                proof {
                    let out = crate::store::upsert_agent_config_spec(
                        old(store)@,
                        id as int,
                        Some(ct_v),
                    );
                    assert(decrypt_b64_spec(cipher.key(), ct_v) == Ok::<Seq<char>, AppError>(
                        trim_of(k@),
                    ));
                    assert(store@ == out.0);
                    assert(affected as int == out.1);
                }
                Ok(affected)
            }
        },
    }
}

} // verus!
