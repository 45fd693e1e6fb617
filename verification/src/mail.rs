use vstd::prelude::*;

verus! {

/// One mail participant: an address and an optional display name.
#[derive(Clone, Debug, PartialEq)]
pub struct Participant {
    pub email: String,
    pub name: String,
}

impl From<&str> for Participant {
    /// A participant with the given address and an empty name.
    fn from(src: &str) -> (r: Self)
        ensures
            r.email@ == src@,
            r.name@.len() == 0,
    {
        Participant { email: src.to_owned(), name: String::new() }
    }
}

impl vstd::std_specs::convert::FromSpecImpl<&str> for Participant {
    // A specification-level String value cannot be built out of a character
    // sequence, so the conversion promises nothing through the trait; the
    // impl's own ensures carries the contract for direct calls.
    open spec fn obeys_from_spec() -> bool {
        false
    }

    open spec fn from_spec(v: &str) -> Self {
        arbitrary()
    }
}

/// The recipient list of one personalization.
#[derive(Clone, Debug, PartialEq)]
pub struct Participants(pub Vec<Participant>);

impl Participants {
    /// A copy of the recipient list.
    pub fn inner(&self) -> (r: Vec<Participant>)
        ensures
            r@.len() == self.0@.len(),
            forall|i: int|
                0 <= i < r@.len() ==> (#[trigger] r@[i]).email@ == self.0@[i].email@
                    && r@[i].name@ == self.0@[i].name@,
    {
        let mut result: Vec<Participant> = Vec::new();
        let mut i: usize = 0;
        while i < self.0.len()
            invariant
                i <= self.0@.len(),
                r_matches(result@, self.0@, i as int),
            decreases self.0@.len() - i,
        {
            let p = &self.0[i];
            result.push(Participant { email: p.email.clone(), name: p.name.clone() });
            i = i + 1;
        }
        result
    }
}

/// The first `n` entries of `a` copy the addresses and names of `b`.
pub open spec fn r_matches(a: Seq<Participant>, b: Seq<Participant>, n: int) -> bool {
    &&& a.len() == n
    &&& forall|i: int|
        0 <= i < n ==> (#[trigger] a[i]).email@ == b[i].email@ && a[i].name@ == b[i].name@
}

impl From<&str> for Participants {
    /// A single-recipient list.
    fn from(src: &str) -> (r: Self)
        ensures
            r.0@.len() == 1,
            r.0@[0].email@ == src@,
            r.0@[0].name@.len() == 0,
    {
        let mut v: Vec<Participant> = Vec::new();
        v.push(Participant::from(src));
        Participants(v)
    }
}

impl vstd::std_specs::convert::FromSpecImpl<&str> for Participants {
    // As for Participant: nothing is promised through the trait.
    open spec fn obeys_from_spec() -> bool {
        false
    }

    open spec fn from_spec(v: &str) -> Self {
        arbitrary()
    }
}

impl<P: Clone + Into<Participant>> From<Vec<P>> for Participants {
    /// A list converted entry by entry.
    fn from(src: Vec<P>) -> (r: Self)
        ensures
            r.0@.len() == src@.len(),
    {
        let mut v: Vec<Participant> = Vec::new();
        let mut i: usize = 0;
        while i < src.len()
            invariant
                i <= src@.len(),
                v@.len() == i,
            decreases src@.len() - i,
        {
            v.push(src[i].clone().into());
            i = i + 1;
        }
        Participants(v)
    }
}

impl<P: Clone + Into<Participant>> vstd::std_specs::convert::FromSpecImpl<Vec<P>>
    for Participants {
    // The entry conversion is itself unconstrained, so nothing is promised
    // through the trait.
    open spec fn obeys_from_spec() -> bool {
        false
    }

    open spec fn from_spec(v: Vec<P>) -> Self {
        arbitrary()
    }
}

/// One personalization block: recipients and optional DKIM settings.
#[derive(Clone, PartialEq)]
pub struct Personalization {
    pub to: Vec<Participant>,
    pub dkim_domain: Option<String>,
    pub dkim_selector: Option<String>,
    pub dkim_private_key: Option<String>,
}

/// Extra message headers.
#[derive(Clone, Debug, PartialEq)]
pub struct Headers {
    pub date: Option<String>,
}

/// One content part: a media type and its text.
#[derive(Clone, Debug, PartialEq)]
pub struct Content {
    pub content_type: String,
    pub value: String,
}

impl From<&str> for Content {
    /// A plain-text content part.
    fn from(src: &str) -> (r: Self)
        ensures
            r.content_type@ == "text/plain"@,
            r.value@ == src@,
    {
        Content { content_type: "text/plain".to_owned(), value: src.to_owned() }
    }
}

impl vstd::std_specs::convert::FromSpecImpl<&str> for Content {
    // As for Participant: nothing is promised through the trait.
    open spec fn obeys_from_spec() -> bool {
        false
    }

    open spec fn from_spec(v: &str) -> Self {
        arbitrary()
    }
}

/// DKIM signing settings: the signing domain, the selector, and the
/// private key.
#[derive(Clone, PartialEq)]
pub struct Dkim {
    pub domain: String,
    pub selector: String,
    pub private_key: String,
}

impl Dkim {
    /// Bundles the three DKIM settings.
    pub fn new(domain: String, selector: String, private_key: String) -> (r: Self)
        ensures
            r.domain == domain,
            r.selector == selector,
            r.private_key == private_key,
    {
        Dkim { domain, selector, private_key }
    }
}

/// One outgoing mail message in the transactional-send shape: exactly one
/// personalization and one content part.
#[derive(Clone, PartialEq)]
pub struct EmailMessage {
    pub personalizations: Vec<Personalization>,
    pub from: Participant,
    pub headers: Option<Headers>,
    pub subject: String,
    pub content: Vec<Content>,
}

impl EmailMessage {
    /// A message without DKIM settings.
    pub fn new(from: Participant, to: Participants, subject: String, content: Content) -> (r:
        Self)
        ensures
            r.personalizations@.len() == 1,
            r.personalizations@[0].to == to.0,
            r.personalizations@[0].dkim_domain is None,
            r.personalizations@[0].dkim_selector is None,
            r.personalizations@[0].dkim_private_key is None,
            r.from == from,
            r.headers is None,
            r.subject == subject,
            r.content@.len() == 1,
            r.content@[0] == content,
    {
        Self::new_with_dkim(None, from, to, subject, content)
    }

    /// A message, optionally with DKIM settings copied into its single
    /// personalization.
    pub fn new_with_dkim(
        dkim: Option<Dkim>,
        from: Participant,
        to: Participants,
        subject: String,
        content: Content,
    ) -> (r: Self)
        ensures
            r.personalizations@.len() == 1,
            r.personalizations@[0].to == to.0,
            dkim is None ==> r.personalizations@[0].dkim_domain is None
                && r.personalizations@[0].dkim_selector is None
                && r.personalizations@[0].dkim_private_key is None,
            dkim matches Some(d) ==> r.personalizations@[0].dkim_domain == Some(d.domain)
                && r.personalizations@[0].dkim_selector == Some(d.selector)
                && r.personalizations@[0].dkim_private_key == Some(d.private_key),
            r.from == from,
            r.headers is None,
            r.subject == subject,
            r.content@.len() == 1,
            r.content@[0] == content,
    {
        let (dkim_domain, dkim_selector, dkim_private_key) = match dkim {
            Some(d) => (Some(d.domain), Some(d.selector), Some(d.private_key)),
            None => (None, None, None),
        };
        let mut personalizations: Vec<Personalization> = Vec::new();
        personalizations.push(
            Personalization { to: to.0, dkim_domain, dkim_selector, dkim_private_key },
        );
        let mut contents: Vec<Content> = Vec::new();
        contents.push(content);
        EmailMessage { personalizations, from, headers: None, subject, content: contents }
    }
}

} // verus!
