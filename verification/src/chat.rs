//! The chat: the messages received, and the message being typed.
use vstd::prelude::*;

use crate::network::messages::DecodedPacket;
use crate::network::types::UUID;
use crate::resources::{chars_of, remove_all, remove_all_exec, string_of_chars};

verus! {

/// The kinds of chat messages.
#[derive(Debug, Clone, Copy, PartialEq, Eq, Structural)]
pub enum ChatMessageType {
    Temp,
}

/// A received chat message: who sent it, its kind, and its text.
#[derive(Debug)]
pub struct ChatMessage {
    pub sender: UUID,
    pub message_type: ChatMessageType,
    pub text: String,
}

/// The text that `serde_json` renders for `value[key][index][field]`, where `value` is
/// the JSON text `json` parsed into a `serde_json::Value` (missing entries index to
/// `null`), quotes included; `None` where `json` is not JSON.
pub uninterp spec fn json_text_at(json: Seq<char>, key: Seq<char>, index: nat, field: Seq<char>) -> Option<Seq<char>>;

/// Parses `json` with `serde_json::from_str` into a `serde_json::Value` and renders
/// `value[key][index][field]` with its `Display`; indexing a `Value` by a missing key or
/// index gives `null`. A `Value`'s maps are ordered by key, so the result depends on the
/// arguments alone.
#[verifier::external_body]
fn json_text_at_path(json: &str, key: &str, index: usize, field: &str) -> (text: Option<String>)
    ensures
        match text {
            Some(t) => json_text_at(json@, key@, index as nat, field@) == Some(t@),
            None => json_text_at(json@, key@, index as nat, field@) is None,
        },
{
    match serde_json::from_str::<serde_json::Value>(json) {
        Ok(value) => Some(value[key][index][field].to_string()),
        Err(_) => None,
    }
}

/// The rendered text of a chat message: the `text` of the first `extra` component of
/// its JSON, quotes included; `None` where the JSON does not parse.
pub open spec fn chat_text(json: Seq<char>) -> Option<Seq<char>> {
    json_text_at(json, "extra"@, 0, "text"@)
}

/// The rendered text of the chat message `json`.
pub(crate) fn chat_json_text(json: &str) -> (text: Option<String>)
    ensures
        match text {
            Some(t) => chat_text(json@) == Some(t@),
            None => chat_text(json@) is None,
        },
{
    json_text_at_path(json, "extra", 0, "text")
}

/// A message's text as kept: the rendered text without its double quotes.
pub open spec fn message_text(json: Seq<char>) -> Seq<char> {
    remove_all(chat_text(json).unwrap(), seq!['"'])
}

/// The chat's history and the message being typed.
pub struct Chat {
    history: Vec<ChatMessage>,
    input: String,
    pub send: bool,
}

impl Chat {
    /// The messages received, oldest first.
    pub closed spec fn messages(&self) -> Seq<ChatMessage> {
        self.history@
    }

    /// The text being typed.
    pub closed spec fn typed(&self) -> Seq<char> {
        self.input@
    }

    /// Whether the typed message is marked to be sent.
    pub closed spec fn sending(&self) -> bool {
        self.send
    }

    /// An empty chat.
    pub fn new() -> (c: Chat)
        ensures
            c.messages() == Seq::<ChatMessage>::empty(),
            c.typed() == Seq::<char>::empty(),
            !c.sending(),
    {
        Chat { history: Vec::new(), input: String::new(), send: false }
    }

    /// The messages received, oldest first.
    pub fn get_history(&self) -> (h: &Vec<ChatMessage>)
        ensures
            h@ == self.messages(),
    {
        &self.history
    }

    /// Records an incoming chat message: its sender, and the text of its JSON without
    /// quotes. Other packets are not recorded. The message's JSON must parse.
    pub fn add_message(&mut self, message: &DecodedPacket)
        requires
            message matches DecodedPacket::ChatIncoming(c) ==> chat_text(c.json.0@) is Some,
        ensures
            final(self).typed() == old(self).typed(),
            final(self).sending() == old(self).sending(),
            match message {
                DecodedPacket::ChatIncoming(c) => {
                    &&& final(self).messages().len() == old(self).messages().len() + 1
                    &&& final(self).messages().drop_last() == old(self).messages()
                    &&& final(self).messages().last().sender == c.sender
                    &&& final(self).messages().last().message_type == ChatMessageType::Temp
                    &&& final(self).messages().last().text@ == message_text(c.json.0@)
                },
                _ => final(self).messages() == old(self).messages(),
            },
    {
        match message {
            DecodedPacket::ChatIncoming(c) => {
                let rendered = chat_json_text(c.json.0.as_str()).unwrap();
                let chars = chars_of(rendered.as_str());
                let quote = vec!['"'];
                let stripped = remove_all_exec(&chars, &quote);
                let text = string_of_chars(&stripped);
                let ghost before = self.history@;
                self.history.push(
                    ChatMessage {
                        sender: c.sender,
                        message_type: ChatMessageType::Temp,
                        text,
                    },
                );
                proof {
                    assert(self.history@.drop_last() =~= before);
                    assert(self.messages().len() == old(self).messages().len() + 1);
                    assert(self.messages().last().sender == c.sender);
                    assert(self.messages().last().text@ == stripped@);
                    assert(stripped@ == remove_all(chars@, quote@));
                    assert(chars@ == chat_text(c.json.0@).unwrap());
                    assert(quote@ =~= seq!['"']);
                }
            },
            _ => {},
        }
    }

    /// The text being typed.
    pub fn get_message(&self) -> (m: &String)
        ensures
            m@ == self.typed(),
    {
        &self.input
    }

    /// Takes the text being typed, leaving it empty.
    pub fn get_message_and_clear(&mut self) -> (m: String)
        ensures
            m@ == old(self).typed(),
            final(self).typed() == Seq::<char>::empty(),
            final(self).messages() == old(self).messages(),
            final(self).sending() == old(self).sending(),
    {
        let out = self.input.clone();
        self.input = String::new();
        out
    }

    /// Replaces the text being typed.
    pub fn set_message(&mut self, text: String)
        ensures
            final(self).typed() == text@,
            final(self).messages() == old(self).messages(),
            final(self).sending() == old(self).sending(),
    {
        self.input = text;
    }
}

/// A server the player saved: its address and the name shown for it.
#[derive(Debug, Clone)]
pub struct SavedServer {
    pub ip: String,
    pub name: String,
}

} // verus!
