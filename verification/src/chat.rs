use vstd::prelude::*;
use crate::text::string_eq;

verus! {

/// How much reasoning the model is asked to spend.
#[derive(Debug, Clone, Copy, PartialEq, Eq, Hash, Structural)]
pub enum ReasoningEffort {
    Low,
    Medium,
    High,
}

impl Default for ReasoningEffort {
    fn default() -> (r: Self)
        ensures
            r == ReasoningEffort::Medium,
    {
        ReasoningEffort::Medium
    }
}

impl ReasoningEffort {
    /// The wire spelling of the effort level: its name, in lower case.
    pub fn to_string(&self) -> (r: String)
        ensures
            *self == ReasoningEffort::Low ==> r@ == "low"@,
            *self == ReasoningEffort::Medium ==> r@ == "medium"@,
            *self == ReasoningEffort::High ==> r@ == "high"@,
    {
        match self {
            ReasoningEffort::Low => String::from_str("low"),
            ReasoningEffort::Medium => String::from_str("medium"),
            ReasoningEffort::High => String::from_str("high"),
        }
    }
}

/// What a model is for.
#[derive(Debug, Clone, Copy, PartialEq, Eq, Structural)]
pub enum ModelType {
    Chat,
    Completion,
    Embedding,
}

/// Which chat model a subchat runs on.
#[derive(Debug, Clone, Copy, PartialEq, Eq, Structural)]
pub enum ChatModelType {
    Light,
    Default,
    Thinking,
}

impl Default for ChatModelType {
    fn default() -> (r: Self)
        ensures
            r == ChatModelType::Default,
    {
        ChatModelType::Default
    }
}

/// The conversation mode a chat request runs under.
#[derive(Debug, Clone, Copy, PartialEq, Eq, Structural)]
#[allow(non_camel_case_types)]
pub enum ChatMode {
    NO_TOOLS,
    EXPLORE,
    AGENT,
    CONFIGURE,
    PROJECT_SUMMARY,
}

impl Default for ChatMode {
    fn default() -> (r: Self)
        ensures
            r == ChatMode::NO_TOOLS,
    {
        ChatMode::NO_TOOLS
    }
}

impl ChatMode {
    /// Every mode that runs tools tracks checkpoints; plain chat does not.
    pub fn supports_checkpoints(self) -> (r: bool)
        ensures
            r == (self != ChatMode::NO_TOOLS),
    {
        match self {
            ChatMode::NO_TOOLS => false,
            ChatMode::AGENT | ChatMode::CONFIGURE | ChatMode::PROJECT_SUMMARY
                | ChatMode::EXPLORE => true,
        }
    }

    /// Only the agent mode acts on its own.
    pub fn is_agentic(self) -> (r: bool)
        ensures
            r == (self == ChatMode::AGENT),
    {
        match self {
            ChatMode::AGENT => true,
            ChatMode::NO_TOOLS | ChatMode::EXPLORE | ChatMode::CONFIGURE
                | ChatMode::PROJECT_SUMMARY => false,
        }
    }
}

/// The request-level chat metadata.
#[derive(Debug, Clone, Default)]
pub struct ChatMeta {
    pub chat_id: String,
    pub request_attempt_id: String,
    pub chat_remote: bool,
    pub chat_mode: ChatMode,
    pub current_config_file: String,
}

/// One piece of a multimodal message: plain text, or an attachment named by
/// its content type.
#[derive(Debug, Clone)]
pub struct MultimodalElement {
    pub m_type: String,
    pub m_content: String,
}

/// Whether a multimodal element is plain text.
pub open spec fn is_text_element(e: MultimodalElement) -> bool {
    e.m_type@ == "text"@
}

impl MultimodalElement {
    pub fn is_text(&self) -> (r: bool)
        ensures
            r == is_text_element(*self),
    {
        let text_type = String::from_str("text");
        string_eq(&self.m_type, &text_type)
    }
}

/// A message body: one plain text, or an ordered list of multimodal pieces.
#[derive(Debug, Clone)]
pub enum ChatContent {
    SimpleText(String),
    Multimodal(Vec<MultimodalElement>),
}

impl Default for ChatContent {
    fn default() -> (r: Self)
        ensures
            r matches ChatContent::SimpleText(s) && s@ == Seq::<char>::empty(),
    {
        ChatContent::SimpleText(String::new())
    }
}

/// The text of the last plain-text element, or empty when there is none.
pub open spec fn last_text_of(elems: Seq<MultimodalElement>) -> Seq<char>
    decreases elems.len(),
{
    if elems.len() == 0 {
        Seq::empty()
    } else if is_text_element(elems.last()) {
        elems.last().m_content@
    } else {
        last_text_of(elems.drop_last())
    }
}

/// The query text a message body carries: the plain text itself, or — of a
/// multimodal body — the text of its last plain-text element, expected to be
/// the only one.
pub open spec fn query_text_of(c: ChatContent) -> Seq<char> {
    match c {
        ChatContent::SimpleText(s) => s@,
        ChatContent::Multimodal(elems) => last_text_of(elems@),
    }
}

impl ChatContent {
    /// Extracts the query text of this body.
    pub fn query_text(&self) -> (r: String)
        ensures
            r@ == query_text_of(*self),
    {
        match self {
            ChatContent::SimpleText(s) => {
                proof {
                    assert(query_text_of(*self) == s@);
                }
                s.clone()
            },
            ChatContent::Multimodal(elems) => {
                let mut i = elems.len();
                proof {
                    assert(query_text_of(*self) == last_text_of(elems@));
                    assert(elems@.take(elems@.len() as int) =~= elems@);
                }
                loop
                    invariant
                        i <= elems@.len(),
                        query_text_of(*self) == last_text_of(elems@),
                        last_text_of(elems@) == last_text_of(elems@.take(i as int)),
                    ensures
                        i == 0,
                        last_text_of(elems@) == Seq::<char>::empty(),
                    decreases i,
                {
                    if i == 0 {
                        proof {
                            assert(elems@.take(0) =~= Seq::<MultimodalElement>::empty());
                        }
                        break ;
                    }
                    proof {
                        assert(elems@.take(i as int).last() == elems@[i - 1]);
                        assert(elems@.take(i as int).drop_last() =~= elems@.take(i - 1));
                    }
                    if elems[i - 1].is_text() {
                        proof {
                            assert(is_text_element(elems@.take(i as int).last()));
                            assert(last_text_of(elems@.take(i as int)) == elems@[i
                                - 1].m_content@);
                        }
                        return elems[i - 1].m_content.clone();
                    }
                    i = i - 1;
                }
                String::new()
            },
        }
    }

    /// Replaces the query text: a plain-text body becomes the new text; in a
    /// multimodal body every plain-text element takes the new text, the other
    /// elements stay as they are.
    pub fn with_query_text(&self, new_text: &String) -> (r: ChatContent)
        ensures
            *self matches ChatContent::SimpleText(_) ==> (r matches ChatContent::SimpleText(s)
                && s@ == new_text@),
            *self matches ChatContent::Multimodal(es) ==> (r matches ChatContent::Multimodal(rs)
                && rs@.len() == es@.len() && (forall|i: int|
                0 <= i < es@.len() ==> (#[trigger] rs@[i]).m_type@ == es@[i].m_type@
                    && rs@[i].m_content@ == (if is_text_element(es@[i]) {
                    new_text@
                } else {
                    es@[i].m_content@
                }))),
    {
        match self {
            ChatContent::SimpleText(_) => ChatContent::SimpleText(new_text.clone()),
            ChatContent::Multimodal(elems) => {
                let n = elems.len();
                let mut rs: Vec<MultimodalElement> = Vec::new();
                for i in 0..n
                    invariant
                        n == elems@.len(),
                        rs@.len() == i,
                        forall|k: int|
                            0 <= k < i ==> (#[trigger] rs@[k]).m_type@ == elems@[k].m_type@
                                && rs@[k].m_content@ == (if is_text_element(elems@[k]) {
                                new_text@
                            } else {
                                elems@[k].m_content@
                            }),
                {
                    let content = if elems[i].is_text() {
                        new_text.clone()
                    } else {
                        elems[i].m_content.clone()
                    };
                    rs.push(
                        MultimodalElement { m_type: elems[i].m_type.clone(), m_content: content },
                    );
                }
                ChatContent::Multimodal(rs)
            },
        }
    }
}

/// The token counts a completion reported.
#[derive(Debug, Clone, Default)]
pub struct ChatUsage {
    pub prompt_tokens: usize,
    pub completion_tokens: usize,
    pub total_tokens: usize,
}

/// The function a tool call names, with its serialized arguments.
#[derive(Debug, Clone)]
pub struct ChatToolFunction {
    pub arguments: String,
    pub name: String,
}

/// One tool call a message carries.
#[derive(Debug, Clone)]
pub struct ChatToolCall {
    pub id: String,
    pub function: ChatToolFunction,
    pub tool_type: String,
}

/// One chat message, as the execution endpoint works with it.
#[derive(Debug, Clone, Default)]
pub struct ChatMessage {
    pub role: String,
    pub content: ChatContent,
    pub finish_reason: Option<String>,
    pub tool_calls: Option<Vec<ChatToolCall>>,
    pub tool_call_id: String,
    pub tool_failed: Option<bool>,
    pub usage: Option<ChatUsage>,
}

/// The position of the last message the user wrote, or zero when none did.
pub open spec fn last_user_index(msgs: Seq<ChatMessage>) -> int
    decreases msgs.len(),
{
    if msgs.len() == 0 {
        0
    } else if msgs.last().role@ == "user"@ {
        msgs.len() - 1
    } else {
        last_user_index(msgs.drop_last())
    }
}

/// The number of the message that may never be dropped from the
/// conversation: the last one whose role is "user", or the first message
/// when no user message exists.
pub fn undroppable_message_index(messages: &Vec<ChatMessage>) -> (r: usize)
    ensures
        r as int == last_user_index(messages@),
{
    let user_role = String::from_str("user");
    let mut i = messages.len();
    proof {
        assert(messages@.take(messages@.len() as int) =~= messages@);
    }
    loop
        invariant
            i <= messages@.len(),
            user_role@ == "user"@,
            last_user_index(messages@) == last_user_index(messages@.take(i as int)),
        ensures
            i == 0,
            last_user_index(messages@) == 0,
        decreases i,
    {
        if i == 0 {
            proof {
                assert(messages@.take(0) =~= Seq::<ChatMessage>::empty());
            }
            break ;
        }
        proof {
            assert(messages@.take(i as int).last() == messages@[i - 1]);
            assert(messages@.take(i as int).drop_last() =~= messages@.take(i - 1));
        }
        if string_eq(&messages[i - 1].role, &user_role) {
            return i - 1;
        }
        i = i - 1;
    }
    0
}

/// What serialization fills in when a gradient type is absent.
pub fn default_gradient_type_value() -> (r: i32)
    ensures
        r == -1,
{
    -1
}

/// What serialization fills in for flags that default to set.
pub fn default_true() -> (r: bool)
    ensures
        r,
{
    true
}

/// One highlighted span as the command engine reports it while previewing a
/// query: a kind of match, the span's character offsets, whether it
/// validated, and — only when it did not — a reason.
#[derive(Debug, Clone)]
pub struct QueryHighlight {
    pub kind: String,
    pub pos1: usize,
    pub pos2: usize,
    pub ok: bool,
    pub reason: Option<String>,
}

/// One highlighted span as the preview response carries it: the same fields
/// with signed offsets, and a missing reason spelled as the empty string.
#[derive(Debug, Clone)]
pub struct Highlight {
    pub kind: String,
    pub pos1: i64,
    pub pos2: i64,
    pub ok: bool,
    pub reason: String,
}

/// Shapes the engine's highlights for the preview response: offsets carried
/// over unchanged, a missing reason becoming the empty string.
pub fn shape_highlights(highlights: &Vec<QueryHighlight>) -> (r: Vec<Highlight>)
    requires
        forall|i: int|
            0 <= i < highlights@.len() ==> (#[trigger] highlights@[i]).pos1 <= i64::MAX
                && highlights@[i].pos2 <= i64::MAX,
    ensures
        r@.len() == highlights@.len(),
        forall|i: int|
            0 <= i < r@.len() ==> {
                let h = highlights@[i];
                &&& (#[trigger] r@[i]).kind@ == h.kind@
                &&& r@[i].pos1 == h.pos1
                &&& r@[i].pos2 == h.pos2
                &&& r@[i].ok == h.ok
                &&& r@[i].reason@ == (match h.reason {
                    Option::Some(s) => s@,
                    Option::None => Seq::<char>::empty(),
                })
            },
{
    let n = highlights.len();
    let mut r: Vec<Highlight> = Vec::new();
    for i in 0..n
        invariant
            n == highlights@.len(),
            forall|k: int|
                0 <= k < n ==> (#[trigger] highlights@[k]).pos1 <= i64::MAX
                    && highlights@[k].pos2 <= i64::MAX,
            r@.len() == i,
            forall|k: int|
                0 <= k < i ==> {
                    let h = highlights@[k];
                    &&& (#[trigger] r@[k]).kind@ == h.kind@
                    &&& r@[k].pos1 == h.pos1
                    &&& r@[k].pos2 == h.pos2
                    &&& r@[k].ok == h.ok
                    &&& r@[k].reason@ == (match h.reason {
                        Option::Some(s) => s@,
                        Option::None => Seq::<char>::empty(),
                    })
                },
    {
        let h = &highlights[i];
        let reason = match &h.reason {
            Option::Some(s) => s.clone(),
            Option::None => String::new(),
        };
        r.push(
            Highlight {
                kind: h.kind.clone(),
                pos1: h.pos1 as i64,
                pos2: h.pos2 as i64,
                ok: h.ok,
                reason,
            },
        );
    }
    r
}

/// One chunk of a file diff.
#[derive(Debug, Clone, Default, PartialEq, Eq, Hash, PartialOrd, Ord)]
pub struct DiffChunk {
    pub file_name: String,
    pub file_action: String,
    pub line1: usize,
    pub line2: usize,
    pub lines_remove: String,
    pub lines_add: String,
    pub file_name_rename: Option<String>,
    pub is_file: bool,
    pub application_details: String,
}

} // verus!
