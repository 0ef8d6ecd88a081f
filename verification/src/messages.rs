//! Requests, responses and messages.

use vstd::prelude::*;

use crate::error::ServerError;
use crate::id::ID;

verus! {

/// The views of the items of a sequence, in the same order.
pub open spec fn views<T: View>(items: Seq<T>) -> Seq<T::V> {
    items.map_values(|item: T| item@)
}

/// One line of a channel's history.
#[derive(Debug, PartialEq, Eq)]
pub struct Message {
    pub content: String,
    pub author: String,
}

/// A message as contracts see it.
pub struct MessageView {
    pub content: Seq<char>,
    pub author: Seq<char>,
}

impl View for Message {
    type V = MessageView;

    open spec fn view(&self) -> MessageView {
        MessageView { content: self.content@, author: self.author@ }
    }
}

impl Clone for Message {
    fn clone(&self) -> (res: Self)
        ensures
            res@ == self@,
    {
        Message { content: self.content.clone(), author: self.author.clone() }
    }
}

impl Message {
    /// The message with the given content and author.
    pub fn new(content: String, author: String) -> (res: Self)
        ensures
            res@ == (MessageView { content: content@, author: author@ }),
    {
        Self { content, author }
    }
}

/// What a client asks for. An identifier that comes first names a guild.
#[derive(Debug, Clone, PartialEq, Eq)]
pub enum RequestType {
    Ping(String),
    /// Username, password, claimed user id.
    SignIn(String, String, ID),
    /// Username, password.
    SignUp(String, String),
    SignOut(),
    NewServer(String),
    DeleteServer(ID),
    NewChannel(ID, String),
    DeleteChannel(ID, String),
    GetChannels(ID),
    /// Guild, channel name, content.
    SendMessage(ID, String, String),
    /// Guild, channel name, block index.
    GetMessages(ID, String, u32),
}

/// What a client asks for, as contracts see it.
pub enum RequestTypeView {
    Ping(Seq<char>),
    SignIn(Seq<char>, Seq<char>, Seq<char>),
    SignUp(Seq<char>, Seq<char>),
    SignOut,
    NewServer(Seq<char>),
    DeleteServer(Seq<char>),
    NewChannel(Seq<char>, Seq<char>),
    DeleteChannel(Seq<char>, Seq<char>),
    GetChannels(Seq<char>),
    SendMessage(Seq<char>, Seq<char>, Seq<char>),
    GetMessages(Seq<char>, Seq<char>, u32),
}

impl View for RequestType {
    type V = RequestTypeView;

    open spec fn view(&self) -> RequestTypeView {
        match self {
            RequestType::Ping(text) => RequestTypeView::Ping(text@),
            RequestType::SignIn(username, password, id) => RequestTypeView::SignIn(
                username@,
                password@,
                id@,
            ),
            RequestType::SignUp(username, password) => RequestTypeView::SignUp(
                username@,
                password@,
            ),
            RequestType::SignOut() => RequestTypeView::SignOut,
            RequestType::NewServer(name) => RequestTypeView::NewServer(name@),
            RequestType::DeleteServer(server) => RequestTypeView::DeleteServer(server@),
            RequestType::NewChannel(server, name) => RequestTypeView::NewChannel(server@, name@),
            RequestType::DeleteChannel(server, name) => RequestTypeView::DeleteChannel(
                server@,
                name@,
            ),
            RequestType::GetChannels(server) => RequestTypeView::GetChannels(server@),
            RequestType::SendMessage(server, channel, content) => RequestTypeView::SendMessage(
                server@,
                channel@,
                content@,
            ),
            RequestType::GetMessages(server, channel, block) => RequestTypeView::GetMessages(
                server@,
                channel@,
                *block,
            ),
        }
    }
}

/// A request with the session cookie that authenticates it, if it has one.
#[derive(Debug, PartialEq, Eq)]
pub struct Request {
    pub tp: RequestType,
    pub session_cookie: Option<ID>,
}

/// A request as contracts see it.
pub struct RequestView {
    pub tp: RequestTypeView,
    pub session_cookie: Option<Seq<char>>,
}

impl View for Request {
    type V = RequestView;

    open spec fn view(&self) -> RequestView {
        RequestView {
            tp: self.tp@,
            session_cookie: match self.session_cookie {
                Some(cookie) => Some(cookie@),
                None => None,
            },
        }
    }
}

impl Request {
    /// The request of the given kind with the given cookie.
    pub fn new(tp: RequestType, session_cookie: Option<ID>) -> (res: Self)
        ensures
            res.tp == tp,
            res.session_cookie == session_cookie,
    {
        Self { tp, session_cookie }
    }
}

/// The one answer that every request gets.
#[derive(Debug, PartialEq, Eq)]
pub enum Response {
    Pong(String),
    Error(ServerError),
    SessionCreated(ID),
    ServerCreated(ID),
    ChannelList(Vec<String>),
    MessagesFound(Vec<Message>),
    EndOfChannel,
    Success,
}

/// A response as contracts see it.
pub enum ResponseView {
    Pong(Seq<char>),
    Error(ServerError),
    SessionCreated(Seq<char>),
    ServerCreated(Seq<char>),
    ChannelList(Seq<Seq<char>>),
    MessagesFound(Seq<MessageView>),
    EndOfChannel,
    Success,
}

impl View for Response {
    type V = ResponseView;

    open spec fn view(&self) -> ResponseView {
        match self {
            Response::Pong(text) => ResponseView::Pong(text@),
            Response::Error(error) => ResponseView::Error(*error),
            Response::SessionCreated(id) => ResponseView::SessionCreated(id@),
            Response::ServerCreated(id) => ResponseView::ServerCreated(id@),
            Response::ChannelList(names) => ResponseView::ChannelList(views(names@)),
            Response::MessagesFound(messages) => ResponseView::MessagesFound(views(messages@)),
            Response::EndOfChannel => ResponseView::EndOfChannel,
            Response::Success => ResponseView::Success,
        }
    }
}

impl Response {
    /// Whether the response is the plain `Success`.
    pub fn succeeded(&self) -> (b: bool)
        ensures
            b == (self@ == ResponseView::Success),
    {
        match self {
            Response::Success => true,
            _other => false,
        }
    }
}

} // verus!
