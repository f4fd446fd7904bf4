//! Messages exchanged in a conversation with a language model.
//!
//! A [`Message`] pairs a [`Role`] with text content and may carry attachment
//! URLs and [`Annotation`]s. URL values come from the `url` crate and are
//! carried through unchanged; this crate never inspects their inside.

use url::Url as UrlValue;
use vstd::prelude::*;

verus! {

/// Declares `url::Url` so it can stand in fields and signatures. Values of
/// it are opaque here: the crate stores and returns them, nothing more.
#[verifier::external_type_specification]
#[verifier::external_body]
pub struct ExUrl(UrlValue);

/// Relies on `url::Url`'s derived `Clone`, which copies every field of the
/// plain-data `Url` struct, so the clone equals the original.
pub assume_specification[ <UrlValue as Clone>::clone ](u: &UrlValue) -> (r: UrlValue)
    ensures
        r == u,
;

/// Conversation participant role.
#[derive(Debug, Clone, Copy, PartialEq, Eq, Structural)]
pub enum Role {
    /// Input from a human user or client application.
    User,
    /// A response from the AI assistant.
    Assistant,
    /// Context or instructions that guide the model's behavior.
    System,
    /// Output from an external tool or function call.
    Tool,
}

/// Metadata about a URL referenced in a message: its title, a description,
/// and the character range where it appears in the message content.
#[derive(Debug, Clone, PartialEq, Eq)]
pub struct UrlAnnotation {
    /// The annotated URL.
    pub url: UrlValue,
    /// URL title.
    pub title: String,
    /// URL content/description.
    pub content: String,
    /// Start index in message content.
    pub start: usize,
    /// End index in message content.
    pub end: usize,
}

impl UrlAnnotation {
    /// Creates a new URL annotation.
    pub fn new(url: UrlValue, title: String, content: String, start: usize, end: usize) -> (a:
        UrlAnnotation)
        ensures
            a.url == url,
            a.title == title,
            a.content == content,
            a.start == start,
            a.end == end,
    {
        UrlAnnotation { url, title, content, start, end }
    }
}

/// Message annotation. Currently only URL annotations exist.
#[derive(Debug, Clone, PartialEq, Eq)]
pub enum Annotation {
    /// URL annotation. See [`UrlAnnotation`].
    Url(UrlAnnotation),
}

impl Annotation {
    /// Wraps a [`UrlAnnotation`] as an [`Annotation`].
    pub fn url(url_annotation: UrlAnnotation) -> (a: Annotation)
        ensures
            a == Annotation::Url(url_annotation),
    {
        Annotation::Url(url_annotation)
    }
}

/// A message in a conversation: a role, text content, and optional
/// attachments and annotations.
#[derive(Debug, Clone)]
pub struct Message {
    /// Message sender role.
    pub role: Role,
    /// Message text content.
    pub content: String,
    /// URLs of external resources referenced by this message.
    pub attachments: Vec<UrlValue>,
    /// Metadata annotations for URLs mentioned in the content.
    pub annotation: Vec<Annotation>,
}

impl Message {
    /// Creates a new message with the given role and content and no
    /// attachments or annotations.
    pub fn new(role: Role, content: String) -> (m: Message)
        ensures
            m.role == role,
            m.content == content,
            m.attachments@ =~= Seq::<UrlValue>::empty(),
            m.annotation@ =~= Seq::<Annotation>::empty(),
    {
        Message { role, content, attachments: Vec::new(), annotation: Vec::new() }
    }

    /// Creates a new user message.
    pub fn user(content: &str) -> (m: Message)
        ensures
            m.role == Role::User,
            m.content@ == content@,
            m.attachments@ =~= Seq::<UrlValue>::empty(),
            m.annotation@ =~= Seq::<Annotation>::empty(),
    {
        Message::new(Role::User, content.to_owned())
    }

    /// Creates a new assistant message.
    pub fn assistant(content: &str) -> (m: Message)
        ensures
            m.role == Role::Assistant,
            m.content@ == content@,
            m.attachments@ =~= Seq::<UrlValue>::empty(),
            m.annotation@ =~= Seq::<Annotation>::empty(),
    {
        Message::new(Role::Assistant, content.to_owned())
    }

    /// Creates a new system message.
    pub fn system(content: &str) -> (m: Message)
        ensures
            m.role == Role::System,
            m.content@ == content@,
            m.attachments@ =~= Seq::<UrlValue>::empty(),
            m.annotation@ =~= Seq::<Annotation>::empty(),
    {
        Message::new(Role::System, content.to_owned())
    }

    /// Creates a new tool message.
    pub fn tool(content: &str) -> (m: Message)
        ensures
            m.role == Role::Tool,
            m.content@ == content@,
            m.attachments@ =~= Seq::<UrlValue>::empty(),
            m.annotation@ =~= Seq::<Annotation>::empty(),
    {
        Message::new(Role::Tool, content.to_owned())
    }

    /// Appends one attachment URL to the message.
    #[must_use]
    pub fn with_attachment(self, url: UrlValue) -> (m: Message)
        ensures
            m.role == self.role,
            m.content == self.content,
            m.attachments@ == self.attachments@.push(url),
            m.annotation == self.annotation,
    {
        let mut m = self;
        m.attachments.push(url);
        m
    }

    /// Appends several attachment URLs to the message, in order.
    #[must_use]
    pub fn with_attachments(self, urls: Vec<UrlValue>) -> (m: Message)
        ensures
            m.role == self.role,
            m.content == self.content,
            m.attachments@ == self.attachments@ + urls@,
            m.annotation == self.annotation,
    {
        let mut m = self;
        let mut urls = urls;
        m.attachments.append(&mut urls);
        m
    }

    /// Appends one annotation to the message.
    #[must_use]
    pub fn with_annotation(self, annotation: Annotation) -> (m: Message)
        ensures
            m.role == self.role,
            m.content == self.content,
            m.attachments == self.attachments,
            m.annotation@ == self.annotation@.push(annotation),
    {
        let mut m = self;
        m.annotation.push(annotation);
        m
    }

    /// Appends several annotations to the message, in order.
    #[must_use]
    pub fn with_annotations(self, annotations: Vec<Annotation>) -> (m: Message)
        ensures
            m.role == self.role,
            m.content == self.content,
            m.attachments == self.attachments,
            m.annotation@ == self.annotation@ + annotations@,
    {
        let mut m = self;
        let mut annotations = annotations;
        m.annotation.append(&mut annotations);
        m
    }
}

} // verus!
