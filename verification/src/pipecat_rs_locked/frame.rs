use vstd::prelude::*;

verus! {

/// A URL, carried as it was given.
#[verifier::external_type_specification]
#[verifier::external_body]
pub struct ExUrl(url::Url);

/// A JSON value, carried as it was given.
#[verifier::external_type_specification]
#[verifier::external_body]
pub struct ExJsonValue(serde_json::Value);

/// url's `Clone` for `Url`, derived field by field: the copy equals the original.
pub assume_specification[ <url::Url as Clone>::clone ](u: &url::Url) -> (res: url::Url)
    ensures
        res == *u,
;

/// serde_json's `Clone` for `Value`, derived variant by variant: the copy
/// equals the original.
pub assume_specification[ <serde_json::Value as Clone>::clone ](v: &serde_json::Value) -> (res: serde_json::Value)
    ensures
        res == *v,
;

/// A frame: data flowing through the pipeline, or a system event.
#[derive(Debug, PartialEq)]
pub enum Frame {
    DataFrame(DataFrame),
    SystemFrame(SystemFrame),
}

/// Events of the pipeline's life.
#[derive(Debug, Clone, Copy, PartialEq, Eq, Structural)]
pub enum SystemFrame {
    StartUp,
    Stop,
    Shutdown,
}

/// The data a frame can carry.
#[derive(Debug, PartialEq)]
pub enum DataFrame {
    InputTextFrame(String),
    InputTextDeltaFrame(TextDelta),
    OutputTextFrame(String),
    OutputTextDeltaFrame(TextDelta),
    LLMContextFrame(LLMContext),
    LLMResponseFrame(LLMResponse),
}

/// Whether `b` holds what `a` holds: the same variant with the same
/// contents, lists compared element by element.
pub open spec fn same_frame(a: Frame, b: Frame) -> bool {
    match (a, b) {
        (Frame::DataFrame(x), Frame::DataFrame(y)) => same_data(x, y),
        _ => a == b,
    }
}

/// Whether `b` holds the same data as `a`.
pub open spec fn same_data(a: DataFrame, b: DataFrame) -> bool {
    match (a, b) {
        (DataFrame::LLMContextFrame(x), DataFrame::LLMContextFrame(y)) => same_context(x, y),
        (DataFrame::LLMResponseFrame(x), DataFrame::LLMResponseFrame(y)) => same_response(x, y),
        _ => a == b,
    }
}

/// Whether `b` is the same turn of a conversation as `a`.
pub open spec fn same_item(a: ConversationItem, b: ConversationItem) -> bool {
    match (a, b) {
        (ConversationItem::SystemMessage(x), ConversationItem::SystemMessage(y)) => x@ == y@,
        (ConversationItem::UserMessage(x), ConversationItem::UserMessage(y)) => x@ == y@,
        (ConversationItem::AssistantMessage(x), ConversationItem::AssistantMessage(y)) => x@ == y@,
        _ => a == b,
    }
}

/// Whether `b` holds the same conversation and tools as `a`.
pub closed spec fn same_context(a: LLMContext, b: LLMContext) -> bool {
    &&& a.conversation@.len() == b.conversation@.len()
    &&& forall|i: int|
        0 <= i < a.conversation@.len() ==> same_item(#[trigger] a.conversation@[i], b.conversation@[i])
    &&& a.tools@ == b.tools@
}

/// Whether `b` holds the same answer as `a`.
pub closed spec fn same_response(a: LLMResponse, b: LLMResponse) -> bool {
    &&& same_item(a.assistant_message, b.assistant_message)
    &&& a.function_calls@ == b.function_calls@
}

impl Clone for DataFrame {
    /// A copy of the data.
    fn clone(&self) -> (r: Self)
        ensures
            same_data(*self, r),
    {
        match self {
            DataFrame::InputTextFrame(s) => DataFrame::InputTextFrame(s.clone()),
            DataFrame::InputTextDeltaFrame(d) => DataFrame::InputTextDeltaFrame(d.clone()),
            DataFrame::OutputTextFrame(s) => DataFrame::OutputTextFrame(s.clone()),
            DataFrame::OutputTextDeltaFrame(d) => DataFrame::OutputTextDeltaFrame(d.clone()),
            DataFrame::LLMContextFrame(c) => DataFrame::LLMContextFrame(c.clone()),
            DataFrame::LLMResponseFrame(r) => DataFrame::LLMResponseFrame(r.clone()),
        }
    }
}

impl Clone for Frame {
    /// A copy of the frame.
    fn clone(&self) -> (r: Self)
        ensures
            same_frame(*self, r),
    {
        match self {
            Frame::DataFrame(d) => Frame::DataFrame(d.clone()),
            Frame::SystemFrame(s) => Frame::SystemFrame(*s),
        }
    }
}

/// A piece of a text that arrives in parts.
#[derive(Debug, PartialEq)]
pub struct TextDelta {
    pub content: String,
    pub finished: bool,
}

impl Clone for TextDelta {
    /// A copy of the piece.
    fn clone(&self) -> (r: Self)
        ensures
            r == *self,
    {
        TextDelta { content: self.content.clone(), finished: self.finished }
    }
}

/// The conversation so far and the tools a language model may call.
#[derive(Debug, PartialEq)]
pub struct LLMContext {
    pub conversation: Vec<ConversationItem>,
    tools: Vec<Tool>,
}

impl Clone for LLMContext {
    /// A copy of the conversation and the tools.
    fn clone(&self) -> (r: Self)
        ensures
            same_context(*self, r),
    {
        let conversation = self.conversation.clone();
        let tools = self.tools.clone();
        assert(tools@ =~= self.tools@);
        LLMContext { conversation, tools }
    }
}

/// One turn of a conversation.
#[derive(Debug, PartialEq)]
pub enum ConversationItem {
    SystemMessage(Vec<ContentPart>),
    UserMessage(Vec<ContentPart>),
    AssistantMessage(Vec<ContentPart>),
    FunctionCallMessage(FunctionCall),
}

impl Clone for ConversationItem {
    /// A copy of the turn.
    fn clone(&self) -> (r: Self)
        ensures
            same_item(*self, r),
    {
        match self {
            ConversationItem::SystemMessage(parts) => {
                let c = parts.clone();
                assert(c@ =~= parts@);
                ConversationItem::SystemMessage(c)
            },
            ConversationItem::UserMessage(parts) => {
                let c = parts.clone();
                assert(c@ =~= parts@);
                ConversationItem::UserMessage(c)
            },
            ConversationItem::AssistantMessage(parts) => {
                let c = parts.clone();
                assert(c@ =~= parts@);
                ConversationItem::AssistantMessage(c)
            },
            ConversationItem::FunctionCallMessage(call) => ConversationItem::FunctionCallMessage(call.clone()),
        }
    }
}

/// A part of a message.
#[derive(Debug, PartialEq)]
pub enum ContentPart {
    TextPart(String),
    ImagePart(Image),
    AudioPart(Audio),
}

impl Clone for ContentPart {
    /// A copy of the part.
    fn clone(&self) -> (r: Self)
        ensures
            r == *self,
    {
        match self {
            ContentPart::TextPart(s) => ContentPart::TextPart(s.clone()),
            ContentPart::ImagePart(i) => ContentPart::ImagePart(i.clone()),
            ContentPart::AudioPart(a) => ContentPart::AudioPart(a.clone()),
        }
    }
}

#[derive(Debug, PartialEq)]
pub enum Image {
    ImageURL(url::Url),
    ImageBase64(String),
}

impl Clone for Image {
    /// A copy of the image.
    fn clone(&self) -> (r: Self)
        ensures
            r == *self,
    {
        match self {
            Image::ImageURL(u) => Image::ImageURL(u.clone()),
            Image::ImageBase64(s) => Image::ImageBase64(s.clone()),
        }
    }
}

#[derive(Debug, PartialEq)]
pub enum Audio {
    AudioURL(url::Url),
    AudioBase64(String),
}

impl Clone for Audio {
    /// A copy of the audio.
    fn clone(&self) -> (r: Self)
        ensures
            r == *self,
    {
        match self {
            Audio::AudioURL(u) => Audio::AudioURL(u.clone()),
            Audio::AudioBase64(s) => Audio::AudioBase64(s.clone()),
        }
    }
}

/// A call of a tool by the language model, and its outcome.
#[derive(Debug, PartialEq)]
pub struct FunctionCall {
    pub id: String,
    pub name: String,
    pub arguments: serde_json::Value,
    pub result: FunctionCallResult,
}

impl Clone for FunctionCall {
    /// A copy of the call.
    fn clone(&self) -> (r: Self)
        ensures
            r == *self,
    {
        FunctionCall {
            id: self.id.clone(),
            name: self.name.clone(),
            arguments: self.arguments.clone(),
            result: self.result.clone(),
        }
    }
}

#[derive(Debug, PartialEq)]
pub enum FunctionCallResult {
    Success(FunctionCallResultSuccess),
    Error(String),
    Pending,
}

impl Clone for FunctionCallResult {
    /// A copy of the outcome.
    fn clone(&self) -> (r: Self)
        ensures
            r == *self,
    {
        match self {
            FunctionCallResult::Success(s) => FunctionCallResult::Success(s.clone()),
            FunctionCallResult::Error(e) => FunctionCallResult::Error(e.clone()),
            FunctionCallResult::Pending => FunctionCallResult::Pending,
        }
    }
}

#[derive(Debug, PartialEq)]
pub enum FunctionCallResultSuccess {
    StringResult(String),
    JsonResult(serde_json::Value),
}

impl Clone for FunctionCallResultSuccess {
    /// A copy of the result.
    fn clone(&self) -> (r: Self)
        ensures
            r == *self,
    {
        match self {
            FunctionCallResultSuccess::StringResult(s) => FunctionCallResultSuccess::StringResult(s.clone()),
            FunctionCallResultSuccess::JsonResult(v) => FunctionCallResultSuccess::JsonResult(v.clone()),
        }
    }
}

/// A tool the language model may call.
#[derive(Debug, PartialEq)]
pub struct Tool {
    pub name: String,
    pub description: String,
    pub parameters: serde_json::Value,
}

impl Clone for Tool {
    /// A copy of the tool.
    fn clone(&self) -> (r: Self)
        ensures
            r == *self,
    {
        Tool { name: self.name.clone(), description: self.description.clone(), parameters: self.parameters.clone() }
    }
}

/// What the language model answered: a message and the calls it asks for.
#[derive(Debug, PartialEq)]
pub struct LLMResponse {
    assistant_message: ConversationItem,
    function_calls: Vec<FunctionCall>,
}

impl Clone for LLMResponse {
    /// A copy of the answer.
    fn clone(&self) -> (r: Self)
        ensures
            same_response(*self, r),
    {
        let assistant_message = self.assistant_message.clone();
        let function_calls = self.function_calls.clone();
        assert(function_calls@ =~= self.function_calls@);
        LLMResponse { assistant_message, function_calls }
    }
}

} // verus!
