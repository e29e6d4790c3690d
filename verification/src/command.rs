use vstd::prelude::*;

verus! {

/// The description of one run, as the operator submits it and as each
/// worker receives its share of it.
#[derive(Debug)]
pub struct AttackCommand {
    pub url: String,
    pub host: Option<String>,
    pub target_port: Option<u16>,
    pub attack_type: String,
    /// Duration in seconds; zero means without end.
    pub time: u64,
    pub method: String,
    pub header: Vec<String>,
    pub data: Option<String>,
    pub proxy: Option<String>,
    /// The desired number of concurrent issuers.
    pub concurrent: Option<u32>,
    /// Pause between two requests of one issuer, in milliseconds.
    pub delay: u64,
    pub output: Option<String>,
    pub ramp_up: Option<u64>,
    pub schedule: Option<String>,
    pub random_ua: bool,
}

/// The mathematical value of an [`AttackCommand`].
pub struct AttackCommandView {
    pub url: Seq<char>,
    pub host: Option<Seq<char>>,
    pub target_port: Option<u16>,
    pub attack_type: Seq<char>,
    pub time: u64,
    pub method: Seq<char>,
    pub header: Seq<Seq<char>>,
    pub data: Option<Seq<char>>,
    pub proxy: Option<Seq<char>>,
    pub concurrent: Option<u32>,
    pub delay: u64,
    pub output: Option<Seq<char>>,
    pub ramp_up: Option<u64>,
    pub schedule: Option<Seq<char>>,
    pub random_ua: bool,
}

/// The value of an optional text.
pub open spec fn text_view(text: Option<String>) -> Option<Seq<char>> {
    match text {
        Some(t) => Some(t@),
        None => None,
    }
}

/// The values of a list of texts.
pub open spec fn texts_view(texts: Seq<String>) -> Seq<Seq<char>> {
    Seq::new(texts.len(), |i: int| texts[i]@)
}

impl View for AttackCommand {
    type V = AttackCommandView;

    open spec fn view(&self) -> AttackCommandView {
        AttackCommandView {
            url: self.url@,
            host: text_view(self.host),
            target_port: self.target_port,
            attack_type: self.attack_type@,
            time: self.time,
            method: self.method@,
            header: texts_view(self.header@),
            data: text_view(self.data),
            proxy: text_view(self.proxy),
            concurrent: self.concurrent,
            delay: self.delay,
            output: text_view(self.output),
            ramp_up: self.ramp_up,
            schedule: text_view(self.schedule),
            random_ua: self.random_ua,
        }
    }
}

/// Copies an optional text.
pub fn copy_text(text: &Option<String>) -> (copy: Option<String>)
    ensures
        text_view(copy) == text_view(*text),
{
    match text {
        Some(t) => Some(t.clone()),
        None => None,
    }
}

/// Copies a list of texts.
pub fn copy_texts(texts: &Vec<String>) -> (copy: Vec<String>)
    ensures
        texts_view(copy@) == texts_view(texts@),
{
    let mut copy: Vec<String> = Vec::new();
    let mut i: usize = 0;
    while i < texts.len()
        invariant
            i <= texts@.len(),
            copy@.len() == i,
            forall|k: int| 0 <= k < i ==> copy@[k]@ == texts@[k]@,
        decreases texts@.len() - i,
    {
        copy.push(texts[i].clone());
        i += 1;
    }
    assert(texts_view(copy@) =~= texts_view(texts@));
    copy
}

impl Clone for AttackCommand {
    fn clone(&self) -> (copy: AttackCommand)
        ensures
            copy@ == self@,
    {
        AttackCommand {
            url: self.url.clone(),
            host: copy_text(&self.host),
            target_port: self.target_port,
            attack_type: self.attack_type.clone(),
            time: self.time,
            method: self.method.clone(),
            header: copy_texts(&self.header),
            data: copy_text(&self.data),
            proxy: copy_text(&self.proxy),
            concurrent: self.concurrent,
            delay: self.delay,
            output: copy_text(&self.output),
            ramp_up: self.ramp_up,
            schedule: copy_text(&self.schedule),
            random_ua: self.random_ua,
        }
    }
}

impl AttackCommand {
    /// The command with its concurrency replaced and every other field
    /// kept.
    pub open spec fn with_concurrent_spec(
        cmd: AttackCommandView,
        concurrent: Option<u32>,
    ) -> AttackCommandView {
        AttackCommandView { concurrent, ..cmd }
    }

    /// A copy of the command that differs from it in the concurrency only.
    pub fn with_concurrent(&self, concurrent: Option<u32>) -> (copy: AttackCommand)
        ensures
            copy@ == AttackCommand::with_concurrent_spec(self@, concurrent),
    {
        let mut copy = self.clone();
        copy.concurrent = concurrent;
        copy
    }
}

} // verus!
