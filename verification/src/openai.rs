//! What is exchanged with the remote chat service.

use vstd::prelude::*;

verus! {

/// One message of a conversation.
#[derive(Debug)]
pub struct Message {
    pub role: String,
    pub content: String,
}

/// A request for a completion.
#[derive(Debug)]
pub struct ChatCompletionRequest {
    pub model: String,
    pub messages: Vec<Message>,
}

/// One answer of the service.
#[derive(Debug)]
pub struct ChatChoice {
    pub index: i32,
    pub message: Message,
    pub finish_reason: String,
}

/// What a completion used up.
#[derive(Debug)]
pub struct ChatCompletionUsage {
    pub prompt_tokens: i32,
    pub completion_tokens: i32,
    pub total_tokens: i32,
}

/// The service's reply to a request.
#[derive(Debug)]
pub struct ChatCompletionResponse {
    pub id: String,
    pub object_field: String,
    pub created: u64,
    pub model: String,
    pub system_fingerprint: Option<String>,
    pub choices: Vec<ChatChoice>,
    pub usage: ChatCompletionUsage,
}

impl ChatCompletionResponse {
    /// The text of the first answer, where the reply holds an answer.
    pub fn first_content(&self) -> (content: Option<String>)
        ensures
            match content {
                Some(text) => self.choices.len() > 0 && text == self.choices[0].message.content,
                None => self.choices.len() == 0,
            },
    {
        if self.choices.len() > 0 {
            Some(self.choices[0].message.content.clone())
        } else {
            None
        }
    }
}

} // verus!
