//! The generation client: what is asked of the text-generation endpoint, and
//! what is read out of its answer. Sending the request is left to the caller.

use crate::text::{lemma_split_pieces_lack_separator, split, split_on, trim, trimmed};
use vstd::prelude::*;

verus! {

/// Where completions are requested.
pub const ENDPOINT: &'static str = "https://api.openai.com/v1/chat/completions";

/// The model that is asked.
pub const MODEL: &'static str = "gpt-4";

/// The role under which the prompt is sent.
pub const ROLE: &'static str = "user";

/// The media type of the request body.
pub const CONTENT_TYPE: &'static str = "application/json";

/// The sampling temperature, in hundredths: 50 stands for one half.
pub const TEMPERATURE_HUNDREDTHS: u32 = 50;

/// What precedes the title in the prompt for a summary.
pub const SUMMARY_OPENING: &'static str =
    "\n        You will be given a title and text.\n        Generate a summary of the text.\n        The summary should be readable in less than 5 minutes.\n        \\n\\n\n        Title: ";

/// What precedes the title in the prompt for labels.
pub const LABELS_OPENING: &'static str =
    "\n        You will be given a title and text.\n        Generate 5 labels that accurately describe the text.\n        You will only respond with the labels separated by commas.\n        \\n\\n\n        Title: ";

/// What stands between the title and the text in either prompt.
pub const PROMPT_MIDDLE: &'static str = "\\n\\n\n        Text: ";

/// What follows the text in either prompt.
pub const PROMPT_CLOSING: &'static str = "\\n\\n\n        Summary:\n        ";

/// What precedes the key in the authorization header.
pub const BEARER: &'static str = "Bearer ";

/// One message of a conversation.
#[derive(Debug, PartialEq, Eq)]
pub struct Message {
    pub role: String,
    pub content: String,
}

/// One completion that the endpoint offers.
#[derive(Debug, PartialEq, Eq)]
pub struct Choice {
    pub message: Message,
    pub index: i64,
    pub finish_reason: String,
}

/// The body of a response of the endpoint.
#[derive(Debug, PartialEq, Eq)]
pub struct ApiResponse {
    pub choices: Option<Vec<Choice>>,
}

/// A request for one completion, ready to be sent.
#[derive(Debug, PartialEq, Eq)]
pub struct GenerationRequest {
    pub url: String,
    pub content_type: String,
    pub authorization: String,
    pub model: String,
    pub temperature_hundredths: u32,
    pub messages: Vec<Message>,
}

/// How an exchange with the endpoint ended.
#[derive(Debug, PartialEq, Eq)]
pub enum GenerationReply {
    /// The request could not be delivered, or no response came back.
    Unreachable,
    /// A response came back, with this status code. `body` is `None` when
    /// the body could not be read as an `ApiResponse`.
    Response { status: u16, body: Option<ApiResponse> },
}

/// Why a generation call failed.
#[derive(Debug, Clone, Copy, PartialEq, Eq, Structural)]
pub enum GenerationError {
    /// The transport call could not complete.
    Transport,
    /// The endpoint answered with a status other than success.
    Status(u16),
    /// The body of the response did not have the shape of a completion.
    Parse,
    /// The response offered no completion.
    NoCompletion,
}

/// A `Message` as the contracts see it: each text by its characters.
pub struct MessageView {
    pub role: Seq<char>,
    pub content: Seq<char>,
}

/// A `Choice` as the contracts see it: each text by its characters.
pub struct ChoiceView {
    pub message: MessageView,
    pub index: i64,
    pub finish_reason: Seq<char>,
}

/// An `ApiResponse` as the contracts see it: each text by its characters.
pub struct ApiResponseView {
    pub choices: Option<Seq<ChoiceView>>,
}

/// A `GenerationRequest` as the contracts see it: each text by its characters.
pub struct GenerationRequestView {
    pub url: Seq<char>,
    pub content_type: Seq<char>,
    pub authorization: Seq<char>,
    pub model: Seq<char>,
    pub temperature_hundredths: u32,
    pub messages: Seq<MessageView>,
}

/// A `GenerationReply` as the contracts see it: each text by its characters.
pub enum GenerationReplyView {
    Unreachable,
    Response { status: u16, body: Option<ApiResponseView> },
}

impl View for Message {
    type V = MessageView;

    open spec fn view(&self) -> MessageView {
        MessageView { role: self.role@, content: self.content@ }
    }
}

impl DeepView for Message {
    type V = MessageView;

    open spec fn deep_view(&self) -> MessageView {
        self@
    }
}

impl View for Choice {
    type V = ChoiceView;

    open spec fn view(&self) -> ChoiceView {
        ChoiceView {
            message: self.message@,
            index: self.index,
            finish_reason: self.finish_reason@,
        }
    }
}

impl DeepView for Choice {
    type V = ChoiceView;

    open spec fn deep_view(&self) -> ChoiceView {
        self@
    }
}

impl View for ApiResponse {
    type V = ApiResponseView;

    open spec fn view(&self) -> ApiResponseView {
        ApiResponseView { choices: self.choices.deep_view() }
    }
}

impl View for GenerationRequest {
    type V = GenerationRequestView;

    open spec fn view(&self) -> GenerationRequestView {
        GenerationRequestView {
            url: self.url@,
            content_type: self.content_type@,
            authorization: self.authorization@,
            model: self.model@,
            temperature_hundredths: self.temperature_hundredths,
            messages: self.messages.deep_view(),
        }
    }
}

impl View for GenerationReply {
    type V = GenerationReplyView;

    open spec fn view(&self) -> GenerationReplyView {
        match self {
            GenerationReply::Unreachable => GenerationReplyView::Unreachable,
            GenerationReply::Response { status, body } => GenerationReplyView::Response {
                status: *status,
                body: match body {
                    Some(response) => Some(response@),
                    None => None,
                },
            },
        }
    }
}

/// The prompt that asks for a summary of `contents` under `title`.
pub open spec fn summary_prompt_text(title: Seq<char>, contents: Seq<char>) -> Seq<char> {
    SUMMARY_OPENING@ + title + PROMPT_MIDDLE@ + contents + PROMPT_CLOSING@
}

/// The prompt that asks for five labels for `contents` under `title`.
pub open spec fn labels_prompt_text(title: Seq<char>, contents: Seq<char>) -> Seq<char> {
    LABELS_OPENING@ + title + PROMPT_MIDDLE@ + contents + PROMPT_CLOSING@
}

/// The request that carries `prompt` as its single message, authorized by
/// `api_key`.
pub open spec fn request_with(api_key: Seq<char>, prompt: Seq<char>) -> GenerationRequestView {
    GenerationRequestView {
        url: ENDPOINT@,
        content_type: CONTENT_TYPE@,
        authorization: BEARER@ + api_key,
        model: MODEL@,
        temperature_hundredths: TEMPERATURE_HUNDREDTHS,
        messages: seq![MessageView { role: ROLE@, content: prompt }],
    }
}

/// The request for a summary.
pub open spec fn summary_request_of(
    api_key: Seq<char>,
    title: Seq<char>,
    contents: Seq<char>,
) -> GenerationRequestView {
    request_with(api_key, summary_prompt_text(title, contents))
}

/// The request for labels.
pub open spec fn labels_request_of(
    api_key: Seq<char>,
    title: Seq<char>,
    contents: Seq<char>,
) -> GenerationRequestView {
    request_with(api_key, labels_prompt_text(title, contents))
}

/// Whether a status code reports success.
pub open spec fn is_success(status: u16) -> bool {
    200 <= status <= 299
}

/// The text of the first completion in a reply, or the reason why there is
/// none: the exchange failed, the status was not a success, the body could
/// not be read, or it offered no completion.
pub open spec fn first_completion(reply: GenerationReplyView) -> Result<Seq<char>, GenerationError> {
    match reply {
        GenerationReplyView::Unreachable => Err(GenerationError::Transport),
        GenerationReplyView::Response { status, body } => {
            if !is_success(status) {
                Err(GenerationError::Status(status))
            } else {
                match body {
                    None => Err(GenerationError::Parse),
                    Some(response) => match response.choices {
                        None => Err(GenerationError::NoCompletion),
                        Some(choices) => if choices.len() == 0 {
                            Err(GenerationError::NoCompletion)
                        } else {
                            Ok(choices[0].message.content)
                        },
                    },
                }
            }
        },
    }
}

/// The labels that a completion names: its trimmed text, cut at the commas,
/// each piece trimmed.
pub open spec fn label_texts(completion: Seq<char>) -> Seq<Seq<char>> {
    split_on(trimmed(completion), ',').map_values(|piece: Seq<char>| trimmed(piece))
}

/// The summary that a reply yields: the first completion, trimmed.
pub open spec fn summary_of(reply: GenerationReplyView) -> Result<Seq<char>, GenerationError> {
    match first_completion(reply) {
        Ok(completion) => Ok(trimmed(completion)),
        Err(error) => Err(error),
    }
}

/// The labels that a reply yields: those that its first completion names.
pub open spec fn labels_of(reply: GenerationReplyView) -> Result<Seq<Seq<char>>, GenerationError> {
    match first_completion(reply) {
        Ok(completion) => Ok(label_texts(completion)),
        Err(error) => Err(error),
    }
}

/// A text result by the characters it holds.
pub open spec fn text_result<E>(result: Result<String, E>) -> Result<Seq<char>, E> {
    match result {
        Ok(text) => Ok(text@),
        Err(error) => Err(error),
    }
}

/// A result of several texts by the characters they hold.
pub open spec fn texts_result<E>(result: Result<Vec<String>, E>) -> Result<Seq<Seq<char>>, E> {
    match result {
        Ok(texts) => Ok(texts.deep_view()),
        Err(error) => Err(error),
    }
}

/// A completion always names at least one label: a text without a comma
/// is one label, and so is an empty text.
pub proof fn lemma_labels_are_never_none(reply: GenerationReplyView)
    ensures
        labels_of(reply) matches Ok(labels) ==> labels.len() >= 1,
        summary_of(reply) is Ok <==> labels_of(reply) is Ok,
        summary_of(reply) matches Err(error) ==> labels_of(reply) == Err::<
            Seq<Seq<char>>,
            GenerationError,
        >(error),
{
    if let Ok(completion) = first_completion(reply) {
        lemma_split_pieces_lack_separator(trimmed(completion), ',');
    }
}

impl GenerationError {
    /// What `message` says of this error.
    pub open spec fn message_text(self) -> Seq<char> {
        match self {
            GenerationError::Transport => "failed sending POST request to endpoint"@,
            GenerationError::Status(_) => "server responded with error code"@,
            GenerationError::Parse => "failed parsing response as JSON"@,
            GenerationError::NoCompletion => "response holds no completion"@,
        }
    }

    /// A description of the error for the user.
    pub fn message(&self) -> (text: String)
        ensures
            text@ == self.message_text(),
    {
        match self {
            GenerationError::Transport => String::from_str(
                "failed sending POST request to endpoint",
            ),
            GenerationError::Status(_) => String::from_str("server responded with error code"),
            GenerationError::Parse => String::from_str("failed parsing response as JSON"),
            GenerationError::NoCompletion => String::from_str("response holds no completion"),
        }
    }
}

fn prompt(opening: &str, title: &str, contents: &str) -> (text: String)
    ensures
        text@ == opening@ + title@ + PROMPT_MIDDLE@ + contents@ + PROMPT_CLOSING@,
{
    String::from_str(opening).concat(title).concat(PROMPT_MIDDLE).concat(contents).concat(
        PROMPT_CLOSING,
    )
}

fn request(api_key: &str, prompt: String) -> (request: GenerationRequest)
    ensures
        request@ == request_with(api_key@, prompt@),
{
    let mut messages: Vec<Message> = Vec::new();
    messages.push(Message { role: String::from_str(ROLE), content: prompt });
    let request = GenerationRequest {
        url: String::from_str(ENDPOINT),
        content_type: String::from_str(CONTENT_TYPE),
        authorization: String::from_str(BEARER).concat(api_key),
        model: String::from_str(MODEL),
        temperature_hundredths: TEMPERATURE_HUNDREDTHS,
        messages,
    };
    assert(request.messages.deep_view() =~= seq![MessageView { role: ROLE@, content: prompt@ }]);
    request
}

/// Builds the prompt that asks for a summary, readable in under five
/// minutes, of `contents` under `title`.
pub fn summary_prompt(title: &str, contents: &str) -> (text: String)
    ensures
        text@ == summary_prompt_text(title@, contents@),
{
    prompt(SUMMARY_OPENING, title, contents)
}

/// Builds the prompt that asks for exactly five labels, separated by commas
/// and nothing else, for `contents` under `title`.
pub fn labels_prompt(title: &str, contents: &str) -> (text: String)
    ensures
        text@ == labels_prompt_text(title@, contents@),
{
    prompt(LABELS_OPENING, title, contents)
}

/// Builds the single request that asks the endpoint for a summary.
pub fn summary_request(api_key: &str, title: &str, contents: &str) -> (request: GenerationRequest)
    ensures
        request@ == summary_request_of(api_key@, title@, contents@),
{
    request(api_key, summary_prompt(title, contents))
}

/// Builds the single request that asks the endpoint for labels.
pub fn labels_request(api_key: &str, title: &str, contents: &str) -> (request: GenerationRequest)
    ensures
        request@ == labels_request_of(api_key@, title@, contents@),
{
    request(api_key, labels_prompt(title, contents))
}

/// Reads the text of the first completion out of a reply. Only the first
/// choice is used.
pub fn completion<'a>(reply: &'a GenerationReply) -> (result: Result<&'a str, GenerationError>)
    ensures
        match first_completion(reply@) {
            Ok(text) => result is Ok && result->Ok_0@ == text,
            Err(error) => result == Err::<&str, GenerationError>(error),
        },
{
    match reply {
        GenerationReply::Unreachable => Err(GenerationError::Transport),
        GenerationReply::Response { status, body } => {
            if *status < 200 || *status > 299 {
                return Err(GenerationError::Status(*status));
            }
            match body {
                None => Err(GenerationError::Parse),
                Some(response) => match &response.choices {
                    None => Err(GenerationError::NoCompletion),
                    Some(choices) => {
                        if choices.len() == 0 {
                            Err(GenerationError::NoCompletion)
                        } else {
                            Ok(choices[0].message.content.as_str())
                        }
                    },
                },
            }
        },
    }
}

/// Trims every text of `pieces`.
pub fn trim_all(pieces: &Vec<String>) -> (out: Vec<String>)
    ensures
        out.deep_view() == pieces.deep_view().map_values(|piece: Seq<char>| trimmed(piece)),
{
    let mut out: Vec<String> = Vec::new();
    let mut i: usize = 0;
    while i < pieces.len()
        invariant
            i <= pieces.len(),
            out.len() == i,
            forall|k: int| 0 <= k < i ==> (#[trigger] out@[k])@ == trimmed(pieces@[k]@),
        decreases pieces.len() - i,
    {
        out.push(String::from_str(trim(pieces[i].as_str())));
        i = i + 1;
    }
    out
}

/// The summary in a reply of the endpoint: the text of the first completion
/// without the white space around it, and otherwise unchanged.
pub fn generate_summary(reply: &GenerationReply) -> (result: Result<String, GenerationError>)
    ensures
        text_result(result) == summary_of(reply@),
{
    match completion(reply) {
        Ok(text) => Ok(String::from_str(trim(text))),
        Err(error) => Err(error),
    }
}

/// The labels in a reply of the endpoint: the text of the first completion,
/// trimmed, cut at each comma, every piece trimmed.
pub fn generate_labels(reply: &GenerationReply) -> (result: Result<Vec<String>, GenerationError>)
    ensures
        texts_result(result) == labels_of(reply@),
{
    match completion(reply) {
        Ok(text) => {
            let pieces = split(trim(text), ',');
            Ok(trim_all(&pieces))
        },
        Err(error) => Err(error),
    }
}

} // verus!
