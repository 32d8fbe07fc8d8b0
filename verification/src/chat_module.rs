//! Chat: the message that travels as the payload of a chat frame, and the
//! server's handler for it.

use vstd::prelude::*;

use crate::address::PeerAddress;
use crate::protocol_factory::HandlerProtocolData;

verus! {

/// The chat of a client: it sends messages and files from one account to
/// another, and keeps what was said.
#[allow(non_snake_case)]
pub trait ChatModule {
    /// Sends the text `msg` from `from_account` to `to_account`.
    fn sendMsg(&self, from_account: String, to_account: String, msg: String) -> Result<
        (),
        std::fmt::Error,
    >;

    /// Sends the file at `file_path`, under the name `file_nmae`, from
    /// `from_account` to `to_account`.
    fn sendFile(
        &self,
        from_account: String,
        to_account: String,
        file_nmae: String,
        file_path: String,
    ) -> Result<(), std::fmt::Error>;

    /// What the two accounts have said to each other, if anything is kept of
    /// it.
    fn find_chat_history(&self, account_a: String, account_b: String) -> Option<Vec<ChatData>>;
}

/// A piece of text in a chat message.
#[derive(Debug, Clone, PartialEq, Eq)]
pub struct ChatTextContent {
    pub text: String,
}

/// A file in a chat message: its name, and where to fetch it or what it
/// holds.
#[derive(Debug, Clone, PartialEq, Eq)]
pub struct ChatFileContent {
    pub file_name: String,
    pub url: Option<String>,
    pub data: Option<Vec<u8>>,
}

/// One part of a chat message.
#[derive(Debug, Clone, PartialEq, Eq)]
pub enum ChatContent {
    Text(ChatTextContent),
    File(ChatFileContent),
}

/// A chat message from one account to another.
#[derive(Debug, Clone, PartialEq, Eq)]
pub struct ChatData {
    pub from_account: String,
    pub to_account: String,
    pub contents: Vec<ChatContent>,
    /// When the message was sent.
    pub time: u32,
}

/// A chat message to try the protocol with: from account `1` to account
/// `2`, at time 0, with the text `hello` and the file `test.txt` of four
/// bytes.
pub fn get_chat_data() -> (chat: ChatData)
    ensures
        chat.from_account@ == "1"@,
        chat.to_account@ == "2"@,
        chat.time == 0,
        chat.contents.len() == 2,
        chat.contents[0] matches ChatContent::Text(t) && t.text@ == "hello"@,
        chat.contents[1] matches ChatContent::File(f) && f.file_name@ == "test.txt"@ && f.url is None
            && f.data is Some && f.data->0@ == seq![1u8, 1u8, 1u8, 1u8],
{
    let text = ChatContent::Text(ChatTextContent { text: "hello".to_owned() });
    let mut data: Vec<u8> = Vec::new();
    data.push(1);
    data.push(1);
    data.push(1);
    data.push(1);
    assert(data@ =~= seq![1u8, 1u8, 1u8, 1u8]);
    let f = ChatContent::File(
        ChatFileContent { file_name: "test.txt".to_owned(), data: Some(data), url: None },
    );
    let mut contents: Vec<ChatContent> = Vec::new();
    contents.push(text);
    contents.push(f);
    ChatData { from_account: "1".to_owned(), to_account: "2".to_owned(), contents, time: 0 }
}

/// The server's handler of chat messages. It is the place to store or
/// forward a message; for now a message is taken and nothing is answered.
pub struct ServerChatHandler {}

impl ServerChatHandler {
    /// Takes the chat message `chat`, which `address` sent.
    pub fn handle_chat(&mut self, address: PeerAddress, chat: ChatData) -> (answer: Option<
        Vec<u8>,
    >)
        ensures
            answer is None,
    {
        None
    }
}

/// As a handler of frames, the chat handler takes any payload and answers
/// nothing.
impl HandlerProtocolData for ServerChatHandler {
    open spec fn may_answer(
        &self,
        address: PeerAddress,
        data: Seq<u8>,
        answer: Option<Vec<u8>>,
    ) -> bool {
        answer is None
    }

    fn handle(&mut self, address: PeerAddress, data: &Vec<u8>) -> (answer: Option<Vec<u8>>) {
        None
    }
}

} // verus!
