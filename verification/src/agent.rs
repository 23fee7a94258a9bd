//! The agent: where the model lives, how it is asked, and the bounded history
//! of the conversation so far.

use crate::json::{
    json_as_list, json_as_str, json_as_u64, json_bool, json_clone, json_from_slice, json_get,
    json_list, json_model, json_object, json_of_bytes, json_text, json_unsigned, list_models,
    model_get, model_text, model_unsigned, no_entries, object_clone, object_entries,
    object_insert, object_new, JsonModel, NumberModel,
};
use crate::ring::{
    pushed, ring_capacity, ring_clear, ring_items, ring_new, ring_push, ring_to_vec, MAX_CAPACITY,
};
use crate::stdtext::{replaced, str_replace, str_trim, trimmed};
use crate::text::text_of;
use vstd::prelude::*;
use vstd::string::StringExecFns;

verus! {

/// Why a configuration makes no agent.
#[derive(Debug, Clone, Copy, PartialEq, Eq, Structural)]
pub enum ConfigError {
    /// The configuration text is no JSON.
    Malformed,
    /// `url` is missing or no string.
    MissingUrl,
    /// `token` is missing or no string, and no override is given.
    MissingToken,
    /// `model` is missing or no string.
    MissingModel,
    /// `max_history` is zero, or above [`MAX_CAPACITY`], the largest history
    /// that the machine is asked to allocate.
    HistoryOutOfRange,
}

impl ConfigError {
    /// The text of the error.
    pub open spec fn text(self) -> Seq<char> {
        match self {
            ConfigError::Malformed => "the configuration is not valid JSON"@,
            ConfigError::MissingUrl => "the configuration has no `url`"@,
            ConfigError::MissingToken => "the configuration has no `token`"@,
            ConfigError::MissingModel => "the configuration has no `model`"@,
            ConfigError::HistoryOutOfRange => "`max_history` is out of range"@,
        }
    }

    /// The text of the error.
    pub fn message(self) -> (r: String)
        ensures
            r@ == self.text(),
    {
        match self {
            ConfigError::Malformed => String::from_str("the configuration is not valid JSON"),
            ConfigError::MissingUrl => String::from_str("the configuration has no `url`"),
            ConfigError::MissingToken => String::from_str("the configuration has no `token`"),
            ConfigError::MissingModel => String::from_str("the configuration has no `model`"),
            ConfigError::HistoryOutOfRange => String::from_str("`max_history` is out of range"),
        }
    }
}

/// One side of a conversation with a language model.
pub struct Agent {
    url: String,
    token: String,
    config: serde_json::Map<String, serde_json::Value>,
    system_prompt: String,
    messages: ringbuffer::AllocRingBuffer<serde_json::Value>,
}

/// The mathematical content of an [`Agent`].
pub struct AgentModel {
    /// The chat endpoint.
    pub url: Seq<char>,
    /// The bearer token.
    pub token: Seq<char>,
    /// The generation settings, as they are sent with each request.
    pub settings: Map<Seq<char>, JsonModel>,
    /// The system message; empty for none.
    pub system_prompt: Seq<char>,
    /// The messages of the conversation, oldest first.
    pub history: Seq<JsonModel>,
    /// How many messages the history keeps.
    pub capacity: nat,
}

/// The JSON form of one message.
pub open spec fn message_model(role: Seq<char>, content: Seq<char>) -> JsonModel {
    JsonModel::Object(
        no_entries().insert("role"@, JsonModel::Text(role)).insert(
            "content"@,
            JsonModel::Text(content),
        ),
    )
}

/// The string under `key` of a configuration, if it holds one.
pub open spec fn config_text(config: JsonModel, key: Seq<char>) -> Option<Seq<char>> {
    match model_get(config, key) {
        Some(v) => model_text(v),
        None => None,
    }
}

/// The non-negative integer under `key` of a configuration, or `fallback`
/// where it holds none.
pub open spec fn config_unsigned(config: JsonModel, key: Seq<char>, fallback: u64) -> u64 {
    match model_get(config, key) {
        Some(v) => match model_unsigned(v) {
            Some(n) => n,
            None => fallback,
        },
        None => fallback,
    }
}

/// The settings with the configuration's value under `key`, where it has one.
pub open spec fn with_optional(
    settings: Map<Seq<char>, JsonModel>,
    config: JsonModel,
    key: Seq<char>,
) -> Map<Seq<char>, JsonModel> {
    match model_get(config, key) {
        Some(v) => settings.insert(key, v),
        None => settings,
    }
}

/// The settings that an agent starts with: the model, streaming switched on,
/// the token limit (4096 unless configured), and each sampling option that the
/// configuration sets.
pub open spec fn initial_settings(config: JsonModel, model: Seq<char>) -> Map<
    Seq<char>,
    JsonModel,
> {
    let base = no_entries().insert("model"@, JsonModel::Text(model)).insert(
        "stream"@,
        JsonModel::Bool(true),
    ).insert(
        "max_tokens"@,
        JsonModel::Number(NumberModel::Unsigned(config_unsigned(config, "max_tokens"@, 4096))),
    );
    with_optional(
        with_optional(
            with_optional(with_optional(base, config, "temperature"@), config, "top_p"@),
            config,
            "top_k"@,
        ),
        config,
        "frequency_penalty"@,
    )
}

/// An agent starts with streaming switched on, whatever the configuration
/// says.
pub proof fn lemma_initial_settings_stream(config: JsonModel, model: Seq<char>)
    ensures
        initial_settings(config, model).contains_key("stream"@),
        initial_settings(config, model)["stream"@] == JsonModel::Bool(true),
{
    reveal_strlit("stream");
    reveal_strlit("max_tokens");
    reveal_strlit("temperature");
    reveal_strlit("top_p");
    reveal_strlit("top_k");
    reveal_strlit("frequency_penalty");
    assert("stream"@.len() != "max_tokens"@.len());
    assert("stream"@.len() != "temperature"@.len());
    assert("stream"@.len() != "top_p"@.len());
    assert("stream"@.len() != "top_k"@.len());
    assert("stream"@.len() != "frequency_penalty"@.len());
}

/// Every request asks for a stream.
pub proof fn lemma_request_streams(agent: AgentModel)
    requires
        agent.wf(),
    ensures
        model_get(agent.request(), "stream"@) == Some(JsonModel::Bool(true)),
{
    reveal_strlit("stream");
    reveal_strlit("messages");
    assert("stream"@.len() != "messages"@.len());
}

/// The token that an agent uses: the override where one is given, else the
/// configured one.
pub open spec fn chosen_token(config: JsonModel, token_override: Option<Seq<char>>) -> Option<
    Seq<char>,
> {
    match token_override {
        Some(token) => Some(token),
        None => config_text(config, "token"@),
    }
}

/// The agent that a configuration describes, or why it describes none. The
/// history holds 20 messages unless `max_history` says otherwise; it holds at
/// least one, and no more than the machine limit [`MAX_CAPACITY`].
pub open spec fn agent_of_config(config: JsonModel, token_override: Option<Seq<char>>) -> Result<
    AgentModel,
    ConfigError,
> {
    let capacity = config_unsigned(config, "max_history"@, 20);
    if config_text(config, "url"@) is None {
        Err(ConfigError::MissingUrl)
    } else if chosen_token(config, token_override) is None {
        Err(ConfigError::MissingToken)
    } else if config_text(config, "model"@) is None {
        Err(ConfigError::MissingModel)
    } else if capacity == 0 || capacity > MAX_CAPACITY {
        Err(ConfigError::HistoryOutOfRange)
    } else {
        Ok(
            AgentModel {
                url: config_text(config, "url"@)->Some_0,
                token: chosen_token(config, token_override)->Some_0,
                settings: initial_settings(config, config_text(config, "model"@)->Some_0),
                system_prompt: match config_text(config, "system_prompt"@) {
                    Some(prompt) => prompt,
                    None => Seq::empty(),
                },
                history: Seq::empty(),
                capacity: capacity as nat,
            },
        )
    }
}

/// The agent that a configuration text describes.
pub open spec fn agent_of_text(contents: Seq<u8>, token_override: Option<Seq<char>>) -> Result<
    AgentModel,
    ConfigError,
> {
    match json_of_bytes(contents) {
        Some(config) => agent_of_config(config, token_override),
        None => Err(ConfigError::Malformed),
    }
}

/// The system message as a list: one message, or none for an empty prompt.
pub open spec fn system_messages(prompt: Seq<char>) -> Seq<JsonModel> {
    if prompt.len() > 0 {
        seq![message_model("system"@, prompt)]
    } else {
        Seq::empty()
    }
}

/// The items of a ring after each item of `new` is pushed in order.
pub open spec fn pushed_all(items: Seq<JsonModel>, capacity: nat, new: Seq<JsonModel>) -> Seq<
    JsonModel,
>
    decreases new.len(),
{
    if new.len() == 0 {
        items
    } else {
        pushed(pushed_all(items, capacity, new.drop_last()), capacity, new.last())
    }
}

/// The last `n` items of a sequence, or all of it where it is shorter.
pub open spec fn newest(items: Seq<JsonModel>, n: nat) -> Seq<JsonModel> {
    if items.len() <= n {
        items
    } else {
        items.subrange(items.len() - n, items.len() as int)
    }
}

/// A ring holds the newest of everything it was given: after any number of
/// pushes, its items are the last `capacity` of the old items followed by the
/// pushed ones, in their order.
pub proof fn lemma_ring_holds_newest(items: Seq<JsonModel>, capacity: nat, new: Seq<JsonModel>)
    requires
        1 <= capacity,
        items.len() <= capacity,
    ensures
        pushed_all(items, capacity, new) == newest(items + new, capacity),
    decreases new.len(),
{
    if new.len() == 0 {
        assert(items + new =~= items);
    } else {
        let front = new.drop_last();
        lemma_ring_holds_newest(items, capacity, front);
        let before = items + front;
        let after = items + new;
        assert(after =~= before.push(new.last()));
        assert(pushed(newest(before, capacity), capacity, new.last()) =~= newest(after, capacity));
    }
}

/// After more messages than the history keeps, the history is exactly the
/// last `capacity` of them, in their order.
pub proof fn lemma_history_is_last_messages(
    items: Seq<JsonModel>,
    capacity: nat,
    new: Seq<JsonModel>,
)
    requires
        1 <= capacity,
        items.len() <= capacity,
        new.len() > capacity,
    ensures
        pushed_all(items, capacity, new) == new.subrange(new.len() - capacity, new.len() as int),
{
    lemma_ring_holds_newest(items, capacity, new);
    let all = items + new;
    assert(all.subrange(all.len() - capacity, all.len() as int) =~= new.subrange(
        new.len() - capacity,
        new.len() as int,
    ));
}

/// The JSON form of one message.
fn make_message(role: &str, content: &str) -> (r: serde_json::Value)
    ensures
        json_model(r) == message_model(role@, content@),
{
    let mut message = object_new();
    object_insert(&mut message, "role".to_string(), json_text(String::from_str(role)));
    object_insert(&mut message, "content".to_string(), json_text(String::from_str(content)));
    json_object(message)
}

/// The string under `key` of a configuration, if it holds one.
fn read_text(config: &serde_json::Value, key: &str) -> (r: Option<String>)
    ensures
        match r {
            Some(s) => config_text(json_model(*config), key@) == Some(s@),
            None => config_text(json_model(*config), key@) is None,
        },
{
    match json_get(config, key) {
        Some(v) => match json_as_str(v) {
            Some(s) => Some(String::from_str(s)),
            None => None,
        },
        None => None,
    }
}

/// The non-negative integer under `key` of a configuration, or `fallback`.
fn read_unsigned(config: &serde_json::Value, key: &str, fallback: u64) -> (r: u64)
    ensures
        r == config_unsigned(json_model(*config), key@, fallback),
{
    match json_get(config, key) {
        Some(v) => match json_as_u64(v) {
            Some(n) => n,
            None => fallback,
        },
        None => fallback,
    }
}

/// Copies the configuration's value under `key` into the settings, where it
/// has one.
fn copy_optional(
    settings: &mut serde_json::Map<String, serde_json::Value>,
    config: &serde_json::Value,
    key: &str,
)
    ensures
        object_entries(*final(settings)) == with_optional(
            object_entries(*old(settings)),
            json_model(*config),
            key@,
        ),
{
    match json_get(config, key) {
        Some(v) => {
            object_insert(settings, String::from_str(key), json_clone(v));
        },
        None => {},
    }
}

impl View for Agent {
    type V = AgentModel;

    closed spec fn view(&self) -> AgentModel {
        AgentModel {
            url: self.url@,
            token: self.token@,
            settings: object_entries(self.config),
            system_prompt: self.system_prompt@,
            history: ring_items(self.messages),
            capacity: ring_capacity(self.messages),
        }
    }
}

impl AgentModel {
    /// The history keeps at least one message and never holds more than it
    /// keeps, and responses are asked for as streams.
    pub open spec fn wf(self) -> bool {
        &&& 1 <= self.capacity <= MAX_CAPACITY
        &&& self.history.len() <= self.capacity
        &&& self.settings.contains_key("stream"@)
        &&& self.settings["stream"@] == JsonModel::Bool(true)
    }

    /// The body of the next request: the settings, and under `messages` the
    /// system message, if there is one, followed by the history.
    pub open spec fn request(self) -> JsonModel {
        JsonModel::Object(
            self.settings.insert(
                "messages"@,
                JsonModel::List(system_messages(self.system_prompt) + self.history),
            ),
        )
    }

    /// The endpoint that lists the models: the chat endpoint with its path
    /// replaced.
    pub open spec fn models_url(self) -> Seq<char> {
        replaced(self.url, "chat/completions"@, "models"@)
    }
}

impl Agent {
    /// Makes an agent from a configuration. `token_override` stands for a
    /// token given outside the configuration; it wins over the configured one.
    pub fn new(config: &serde_json::Value, token_override: Option<String>) -> (r: Result<
        Agent,
        ConfigError,
    >)
        ensures
            match agent_of_config(json_model(*config), text_of(token_override)) {
                Ok(model) => r matches Ok(agent) && agent@ == model && agent@.wf(),
                Err(fault) => r == Err::<Agent, ConfigError>(fault),
            },
    {
        let url = match read_text(config, "url") {
            Some(url) => url,
            None => {
                return Err(ConfigError::MissingUrl);
            },
        };
        let token = match token_override {
            Some(token) => token,
            None => match read_text(config, "token") {
                Some(token) => token,
                None => {
                    return Err(ConfigError::MissingToken);
                },
            },
        };
        let model = match read_text(config, "model") {
            Some(model) => model,
            None => {
                return Err(ConfigError::MissingModel);
            },
        };
        let mut settings = object_new();
        object_insert(&mut settings, "model".to_string(), json_text(model));
        object_insert(&mut settings, "stream".to_string(), json_bool(true));
        object_insert(
            &mut settings,
            "max_tokens".to_string(),
            json_unsigned(read_unsigned(config, "max_tokens", 4096)),
        );
        copy_optional(&mut settings, config, "temperature");
        copy_optional(&mut settings, config, "top_p");
        copy_optional(&mut settings, config, "top_k");
        copy_optional(&mut settings, config, "frequency_penalty");
        let system_prompt = match read_text(config, "system_prompt") {
            Some(prompt) => prompt,
            None => String::new(),
        };
        let capacity = read_unsigned(config, "max_history", 20);
        if capacity == 0 || capacity > MAX_CAPACITY as u64 {
            return Err(ConfigError::HistoryOutOfRange);
        }
        let messages = ring_new(capacity as usize);
        let agent = Agent { url, token, config: settings, system_prompt, messages };
        proof {
            let expected = agent_of_config(
                json_model(*config),
                text_of(token_override),
            )->Ok_0;
            assert(agent@.history =~= expected.history);
            assert(agent@.settings =~= expected.settings);
            lemma_initial_settings_stream(json_model(*config), expected.settings["model"@]->Text_0);
        }
        Ok(agent)
    }

    /// Makes an agent from the text of a configuration file.
    pub fn new_with_config_file(contents: &[u8], token_override: Option<String>) -> (r: Result<
        Agent,
        ConfigError,
    >)
        ensures
            match agent_of_text(contents@, text_of(token_override)) {
                Ok(model) => r matches Ok(agent) && agent@ == model && agent@.wf(),
                Err(fault) => r == Err::<Agent, ConfigError>(fault),
            },
    {
        match json_from_slice(contents) {
            Ok(config) => Agent::new(&config, token_override),
            Err(_) => Err(ConfigError::Malformed),
        }
    }

    /// Appends a message to the history. Where the history is full, its oldest
    /// message leaves first.
    pub fn add_message(&mut self, role: &str, content: &str)
        requires
            old(self)@.wf(),
        ensures
            final(self)@.wf(),
            final(self)@ == (AgentModel {
                history: pushed(
                    old(self)@.history,
                    old(self)@.capacity,
                    message_model(role@, content@),
                ),
                ..old(self)@
            }),
    {
        ring_push(&mut self.messages, make_message(role, content));
    }

    /// Empties the history. The system message and the settings stay.
    pub fn clear_messages(&mut self)
        requires
            old(self)@.wf(),
        ensures
            final(self)@.wf(),
            final(self)@ == (AgentModel { history: Seq::empty(), ..old(self)@ }),
    {
        ring_clear(&mut self.messages);
        assert(self@.history =~= Seq::empty());
    }

    /// The body of the next request.
    pub fn request_payload(&self) -> (r: serde_json::Value)
        ensures
            json_model(r) == self@.request(),
    {
        let mut messages: Vec<serde_json::Value> = Vec::new();
        if !self.system_prompt.as_str().is_empty() {
            messages.push(make_message("system", self.system_prompt.as_str()));
        }
        let ghost head = list_models(messages@);
        assert(head =~= system_messages(self@.system_prompt));
        let mut history = ring_to_vec(&self.messages);
        let ghost tail = history@;
        messages.append(&mut history);
        assert(list_models(messages@) =~= head + list_models(tail));
        let mut data = object_clone(&self.config);
        object_insert(&mut data, "messages".to_string(), json_list(messages));
        json_object(data)
    }

    /// The endpoint of the request.
    pub fn url(&self) -> (r: &str)
        ensures
            r@ == self@.url,
    {
        self.url.as_str()
    }

    /// The bearer token of the request.
    pub fn token(&self) -> (r: &str)
        ensures
            r@ == self@.token,
    {
        self.token.as_str()
    }

    /// The endpoint that lists the models.
    pub fn models_url(&self) -> (r: String)
        ensures
            r@ == self@.models_url(),
    {
        str_replace(self.url.as_str(), "chat/completions", "models")
    }

    /// The generation settings.
    pub fn get_config(&self) -> (r: &serde_json::Map<String, serde_json::Value>)
        ensures
            object_entries(*r) == self@.settings,
    {
        &self.config
    }

    /// Sets one generation setting other than streaming.
    fn set(&mut self, key: &str, value: serde_json::Value)
        requires
            old(self)@.wf(),
            key@ != "stream"@,
        ensures
            final(self)@.wf(),
            final(self)@ == (AgentModel {
                settings: old(self)@.settings.insert(key@, json_model(value)),
                ..old(self)@
            }),
    {
        object_insert(&mut self.config, String::from_str(key), value);
    }

    /// Sets the system message.
    pub fn set_system_prompt(&mut self, prompt: &str)
        requires
            old(self)@.wf(),
        ensures
            final(self)@.wf(),
            final(self)@ == (AgentModel { system_prompt: prompt@, ..old(self)@ }),
    {
        self.system_prompt = String::from_str(prompt);
    }

    /// Sets the model that is asked.
    pub fn set_model(&mut self, model: &str)
        requires
            old(self)@.wf(),
        ensures
            final(self)@.wf(),
            final(self)@ == (AgentModel {
                settings: old(self)@.settings.insert("model"@, JsonModel::Text(model@)),
                ..old(self)@
            }),
    {
        proof {
            reveal_strlit("stream");
            reveal_strlit("model");
            assert("model"@.len() != "stream"@.len());
        }
        self.set("model", json_text(String::from_str(model)));
    }

    /// Sets the sampling temperature, given as a JSON number.
    pub fn set_temperature(&mut self, temperature: serde_json::Value)
        requires
            old(self)@.wf(),
        ensures
            final(self)@.wf(),
            final(self)@ == (AgentModel {
                settings: old(self)@.settings.insert("temperature"@, json_model(temperature)),
                ..old(self)@
            }),
    {
        proof {
            reveal_strlit("stream");
            reveal_strlit("temperature");
            assert("temperature"@.len() != "stream"@.len());
        }
        self.set("temperature", temperature);
    }

    /// Sets the nucleus sampling mass, given as a JSON number.
    pub fn set_top_p(&mut self, top_p: serde_json::Value)
        requires
            old(self)@.wf(),
        ensures
            final(self)@.wf(),
            final(self)@ == (AgentModel {
                settings: old(self)@.settings.insert("top_p"@, json_model(top_p)),
                ..old(self)@
            }),
    {
        proof {
            reveal_strlit("stream");
            reveal_strlit("top_p");
            assert("top_p"@.len() != "stream"@.len());
        }
        self.set("top_p", top_p);
    }

    /// Sets how many candidates sampling considers.
    pub fn set_top_k(&mut self, top_k: u64)
        requires
            old(self)@.wf(),
        ensures
            final(self)@.wf(),
            final(self)@ == (AgentModel {
                settings: old(self)@.settings.insert(
                    "top_k"@,
                    JsonModel::Number(NumberModel::Unsigned(top_k)),
                ),
                ..old(self)@
            }),
    {
        proof {
            reveal_strlit("stream");
            reveal_strlit("top_k");
            assert("top_k"@.len() != "stream"@.len());
        }
        self.set("top_k", json_unsigned(top_k));
    }

    /// Sets the frequency penalty, given as a JSON number.
    pub fn set_frequency_penalty(&mut self, frequency_penalty: serde_json::Value)
        requires
            old(self)@.wf(),
        ensures
            final(self)@.wf(),
            final(self)@ == (AgentModel {
                settings: old(self)@.settings.insert(
                    "frequency_penalty"@,
                    json_model(frequency_penalty),
                ),
                ..old(self)@
            }),
    {
        proof {
            reveal_strlit("stream");
            reveal_strlit("frequency_penalty");
            assert("frequency_penalty"@.len() != "stream"@.len());
        }
        self.set("frequency_penalty", frequency_penalty);
    }

    /// Sets the limit on the tokens of a response.
    pub fn set_max_tokens(&mut self, max_tokens: u64)
        requires
            old(self)@.wf(),
        ensures
            final(self)@.wf(),
            final(self)@ == (AgentModel {
                settings: old(self)@.settings.insert(
                    "max_tokens"@,
                    JsonModel::Number(NumberModel::Unsigned(max_tokens)),
                ),
                ..old(self)@
            }),
    {
        proof {
            reveal_strlit("stream");
            reveal_strlit("max_tokens");
            assert("max_tokens"@.len() != "stream"@.len());
        }
        self.set("max_tokens", json_unsigned(max_tokens));
    }
}

/// The identifier of a listed model: the string under `id`, without
/// surrounding white space.
pub open spec fn model_id(item: JsonModel) -> Option<Seq<char>> {
    match model_get(item, "id"@) {
        Some(v) => match model_text(v) {
            Some(t) => Some(trimmed(t)),
            None => None,
        },
        None => None,
    }
}

/// The identifiers of the listed models that have one, in order.
pub open spec fn listed_ids(items: Seq<JsonModel>) -> Seq<Seq<char>>
    decreases items.len(),
{
    if items.len() == 0 {
        Seq::empty()
    } else {
        let front = listed_ids(items.drop_last());
        match model_id(items.last()) {
            Some(id) => front.push(id),
            None => front,
        }
    }
}

/// The model identifiers that a listing holds under `data`; none where it
/// has no such list.
pub open spec fn listing_ids(doc: JsonModel) -> Seq<Seq<char>> {
    match model_get(doc, "data"@) {
        Some(JsonModel::List(items)) => listed_ids(items),
        _ => Seq::empty(),
    }
}

/// The model identifiers of the body of a listing; none where the body is no
/// JSON.
pub open spec fn model_ids(doc: Option<JsonModel>) -> Seq<Seq<char>> {
    match doc {
        Some(d) => listing_ids(d),
        None => Seq::empty(),
    }
}

/// The view of each string of a sequence.
pub open spec fn texts(strings: Seq<String>) -> Seq<Seq<char>> {
    Seq::new(strings.len(), |i: int| strings[i]@)
}

/// Reads the model identifiers from a model listing.
pub fn read_model_list(doc: &serde_json::Value) -> (r: Vec<String>)
    ensures
        texts(r@) == listing_ids(json_model(*doc)),
{
    let mut ids: Vec<String> = Vec::new();
    assert(texts(ids@) =~= Seq::<Seq<char>>::empty());
    let items = match json_get(doc, "data") {
        Some(data) => match json_as_list(data) {
            Some(items) => items,
            None => {
                return ids;
            },
        },
        None => {
            return ids;
        },
    };
    let ghost all = list_models(items@);
    let mut i: usize = 0;
    while i < items.len()
        invariant
            i <= items.len(),
            all == list_models(items@),
            texts(ids@) == listed_ids(all.take(i as int)),
        decreases items.len() - i,
    {
        proof {
            let next = all.take(i + 1);
            assert(next.drop_last() =~= all.take(i as int));
            assert(next.last() == json_model(items@[i as int]));
        }
        let ghost before = texts(ids@);
        match json_get(&items[i], "id") {
            Some(id) => match json_as_str(id) {
                Some(text) => {
                    ids.push(String::from_str(str_trim(text)));
                    assert(texts(ids@) =~= before.push(trimmed(text@)));
                },
                None => {},
            },
            None => {},
        }
        i += 1;
    }
    proof {
        assert(all.take(i as int) =~= all);
    }
    ids
}

/// Reads the model identifiers from the body of a model listing. A body that
/// cannot be read lists no model.
pub fn parse_model_list(body: &[u8]) -> (r: Vec<String>)
    ensures
        texts(r@) == model_ids(json_of_bytes(body@)),
{
    match json_from_slice(body) {
        Ok(doc) => read_model_list(&doc),
        Err(_) => {
            let ids: Vec<String> = Vec::new();
            assert(texts(ids@) =~= Seq::<Seq<char>>::empty());
            ids
        },
    }
}

} // verus!
