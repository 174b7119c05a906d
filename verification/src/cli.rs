//! The sources of a chain, and the steps by which a chain resolves a key.
//!
//! A chain reads nothing from outside the program itself. Where a source
//! needs an environment variable or a file, the resolution stops with a
//! [`Step::Ask`] that names what to read; the caller reads it and resumes.

use crate::args::{arg_values, argument};
use crate::flat::{detect_format, flat_value};
use crate::json::{opt_view, search, JsonValue};
use crate::model::{
    advance, answers_surely, ends_in_default, env_name, first_step, found_in, lemma_first_step_answers,
    lemma_advance_push, lemma_next_step_answers, lemma_next_step_remaining, lemma_run_is_resolve, next_step,
    read_text, remaining, resolve, run, LookupModel, PendingModel, Reading, Source, StepModel,
    World,
};
use vstd::prelude::*;
use vstd::string::StringExecFns;

verus! {

/// Something that only the caller can read.
pub enum Lookup {
    /// The environment variable of this name.
    Env(String),
    /// The text of the file at this path.
    File(String),
}

impl View for Lookup {
    type V = LookupModel;

    open spec fn view(&self) -> LookupModel {
        match self {
            Lookup::Env(name) => LookupModel::Env(name@),
            Lookup::File(path) => LookupModel::File(path@),
        }
    }
}

/// The source that always answers with one fixed value.
pub struct DefaultHandler {
    value: String,
}

/// The source that looks a key up among parsed command-line arguments.
pub struct ArgHandler<'a> {
    args: &'a clap::ArgMatches,
    next: Option<Box<Node<'a>>>,
}

/// The source that looks a key up in the environment, under a prefix if it
/// has one.
pub struct EnvHandler<'a> {
    prefix: Option<String>,
    next: Option<Box<Node<'a>>>,
}

/// The source that answers every key with the whole text of one file.
pub struct FileHandler<'a> {
    file_path: String,
    next: Option<Box<Node<'a>>>,
}

/// The source that searches the JSON document in one file.
pub struct JSONFileHandler<'a> {
    file_handler: FileHandler<'a>,
}

/// The source that looks a key up in the flat table in one file.
///
/// The format of the file is the one that the extension of its path names.
/// Only the file at the path itself is read: a path without such an
/// extension is never read, and no extension is tried in its place.
pub struct CfgFileHandler<'a> {
    file_handler: FileHandler<'a>,
}

/// A source of any kind, as it stands inside a chain.
pub enum Node<'a> {
    Default(DefaultHandler),
    Arg(ArgHandler<'a>),
    Env(EnvHandler<'a>),
    File(FileHandler<'a>),
    JsonFile(JSONFileHandler<'a>),
    CfgFile(CfgFileHandler<'a>),
}

/// The chain that starts at `node`.
pub closed spec fn chain_of(node: Node) -> Seq<Source>
    decreases node,
{
    match node {
        Node::Default(h) => seq![Source::Default { value: h.value@ }],
        Node::Arg(h) => seq![Source::Arg { values: arg_values(*h.args) }] + tail_of(h.next),
        Node::Env(h) => seq![Source::Env { prefix: opt_view(h.prefix) }] + tail_of(h.next),
        Node::File(h) => seq![Source::File { path: h.file_path@ }] + tail_of(h.next),
        Node::JsonFile(h) => seq![Source::JsonFile { path: h.file_handler.file_path@ }] + tail_of(
            h.file_handler.next,
        ),
        Node::CfgFile(h) => seq![Source::CfgFile { path: h.file_handler.file_path@ }] + tail_of(
            h.file_handler.next,
        ),
    }
}

/// The chain that a successor link leads to: empty where there is none.
pub closed spec fn tail_of(next: Option<Box<Node>>) -> Seq<Source>
    decreases next,
{
    match next {
        Some(node) => chain_of(*node),
        None => Seq::empty(),
    }
}

impl<'a> View for Node<'a> {
    type V = Seq<Source>;

    open spec fn view(&self) -> Seq<Source> {
        chain_of(*self)
    }
}

/// A resolution that waits for the caller to read something.
pub struct Pending<'c> {
    /// The key being resolved.
    pub key: String,
    /// What the caller is to read.
    pub lookup: Lookup,
    /// How the waiting source reads what comes back.
    pub reading: Reading,
    /// The source that is asked next if the waiting one has no answer.
    pub rest: Option<&'c Node<'c>>,
}

impl<'c> View for Pending<'c> {
    type V = PendingModel;

    open spec fn view(&self) -> PendingModel {
        PendingModel {
            key: self.key@,
            lookup: self.lookup@,
            reading: self.reading,
            rest: match self.rest {
                Some(node) => node@,
                None => Seq::empty(),
            },
        }
    }
}

/// The state of a resolution between two readings.
pub enum Step<'c> {
    /// The resolution has ended with this result.
    Done(Option<String>),
    /// The caller is to read what is named and to resume.
    Ask(Pending<'c>),
}

impl<'c> View for Step<'c> {
    type V = StepModel;

    open spec fn view(&self) -> StepModel {
        match self {
            Step::Done(result) => StepModel::Done(opt_view(*result)),
            Step::Ask(pending) => StepModel::Ask(pending@),
        }
    }
}

/// A source that can stand in a chain, alone or with successors behind it.
pub trait Handler<'a>: Sized {
    /// The chain that starts at this source.
    spec fn chain(&self) -> Seq<Source>;

    /// Begins to resolve `key` at this source.
    fn handle_request<'c>(&'c self, key: &str) -> (step: Step<'c>)
        ensures
            step@ == first_step(self.chain(), key@),
    ;

    /// This source as a node of a chain.
    fn into_node(self) -> (node: Node<'a>)
        ensures
            node@ == self.chain(),
    ;
}

/// The successor behind a link, borrowed.
fn successor<'c>(next: &'c Option<Box<Node<'c>>>) -> (rest: Option<&'c Node<'c>>)
    ensures
        match rest {
            Some(node) => node@ == tail_of(*next),
            None => tail_of(*next) == Seq::<Source>::empty(),
        },
{
    match next {
        Some(node) => Some(&**node),
        None => None,
    }
}

/// The answer that `text`, read as `reading` says, holds for `key`.
pub fn read_as(reading: Reading, key: &str, text: String) -> (answer: Option<String>)
    ensures
        opt_view(answer) == read_text(reading, key@, text@),
{
    match reading {
        Reading::Verbatim => Some(text),
        Reading::Json => match JsonValue::parse(text.as_str()) {
            Some(doc) => JSONFileHandler::find_key_recursive(&doc, key),
            None => None,
        },
        Reading::Flat(format) => flat_value(text.as_str(), format, key),
    }
}

/// The name of the environment variable that stands for `key` under `prefix`.
pub fn env_variable(prefix: &Option<String>, key: &str) -> (name: String)
    ensures
        name@ == env_name(opt_view(*prefix), key@),
{
    match prefix {
        Some(p) => {
            let mut name = p.clone();
            name.append(key);
            name
        },
        None => key.to_owned(),
    }
}

/// Asks the caller for the text of `file`'s path.
fn ask_file<'c>(file: &'c FileHandler<'c>, reading: Reading, key: &str) -> (step: Step<'c>)
    ensures
        step@ == StepModel::Ask(
            PendingModel {
                key: key@,
                lookup: LookupModel::File(file.file_path@),
                reading,
                rest: tail_of(file.next),
            },
        ),
{
    Step::Ask(
        Pending {
            key: key.to_owned(),
            lookup: Lookup::File(file.file_path.clone()),
            reading,
            rest: successor(&file.next),
        },
    )
}

/// Goes on with the successor behind `next`, or ends without a value.
fn pass<'c>(next: &'c Option<Box<Node<'c>>>, key: &str) -> (step: Step<'c>)
    ensures
        step@ == first_step(tail_of(*next), key@),
    decreases *next,
{
    match next {
        Some(node) => node.handle_request(key),
        None => Step::Done(None),
    }
}

impl<'a> Handler<'a> for Node<'a> {
    open spec fn chain(&self) -> Seq<Source> {
        chain_of(*self)
    }

    fn handle_request<'c>(&'c self, key: &str) -> (step: Step<'c>)
        decreases *self,
    {
        match self {
            Node::Default(h) => h.handle_request(key),
            Node::Arg(h) => h.handle_request(key),
            Node::Env(h) => h.handle_request(key),
            Node::File(h) => h.handle_request(key),
            Node::JsonFile(h) => h.handle_request(key),
            Node::CfgFile(h) => h.handle_request(key),
        }
    }

    fn into_node(self) -> (node: Node<'a>) {
        self
    }
}

impl<'c> Pending<'c> {
    /// Goes on after the caller has read: `found` is what the lookup
    /// brought, `None` where there was nothing to read.
    pub fn resume(self, found: Option<String>) -> (step: Step<'c>)
        ensures
            step@ == next_step(self@, opt_view(found)),
    {
        let answer = match found {
            Some(text) => read_as(self.reading, self.key.as_str(), text),
            None => None,
        };
        match answer {
            Some(value) => Step::Done(Some(value)),
            None => match self.rest {
                Some(node) => node.handle_request(self.key.as_str()),
                None => Step::Done(None),
            },
        }
    }
}

impl DefaultHandler {
    /// A source that answers every key with `value`.
    pub fn new(value: &str) -> (handler: Self)
        ensures
            handler.chain() == seq![Source::Default { value: value@ }],
    {
        DefaultHandler { value: value.to_owned() }
    }
}

impl<'a> Handler<'a> for DefaultHandler {
    closed spec fn chain(&self) -> Seq<Source> {
        seq![Source::Default { value: self.value@ }]
    }

    fn handle_request<'c>(&'c self, key: &str) -> (step: Step<'c>) {
        Step::Done(Some(self.value.clone()))
    }

    fn into_node(self) -> (node: Node<'a>) {
        Node::Default(self)
    }
}

impl<'a> ArgHandler<'a> {
    /// A source over `args`, with no successor.
    pub fn new(args: &'a clap::ArgMatches) -> (handler: Self)
        ensures
            handler.chain() == seq![Source::Arg { values: arg_values(*args) }],
    {
        ArgHandler { args, next: None }
    }

    /// Puts `handler` behind this source, in place of any earlier successor.
    pub fn next<H: Handler<'a>>(self, handler: Box<H>) -> (linked: Self)
        ensures
            linked.chain() == seq![self.chain()[0]] + handler.chain(),
    {
        let node = (*handler).into_node();
        ArgHandler { args: self.args, next: Some(Box::new(node)) }
    }
}

impl<'a> Handler<'a> for ArgHandler<'a> {
    closed spec fn chain(&self) -> Seq<Source> {
        seq![Source::Arg { values: arg_values(*self.args) }] + tail_of(self.next)
    }

    fn handle_request<'c>(&'c self, key: &str) -> (step: Step<'c>)
        decreases *self,
    {
        proof {
            assert(self.chain().drop_first() =~= tail_of(self.next));
        }
        match argument(self.args, key) {
            Some(value) => Step::Done(Some(value)),
            None => pass(&self.next, key),
        }
    }

    fn into_node(self) -> (node: Node<'a>) {
        Node::Arg(self)
    }
}

impl<'a> EnvHandler<'a> {
    /// A source that reads the variable named like the key, with no
    /// successor.
    pub fn new() -> (handler: Self)
        ensures
            handler.chain() == seq![Source::Env { prefix: None }],
    {
        EnvHandler { prefix: None, next: None }
    }

    /// Puts `handler` behind this source, in place of any earlier successor.
    pub fn next<H: Handler<'a>>(self, handler: Box<H>) -> (linked: Self)
        ensures
            linked.chain() == seq![self.chain()[0]] + handler.chain(),
    {
        let node = (*handler).into_node();
        EnvHandler { prefix: self.prefix, next: Some(Box::new(node)) }
    }

    /// Has this source read the variable named `prefix` followed by the
    /// key. Nothing is put between the two.
    pub fn prefix(self, prefix: &str) -> (prefixed: Self)
        ensures
            prefixed.chain() == seq![Source::Env { prefix: Some(prefix@) }] + self.chain().drop_first(),
    {
        proof {
            assert(self.chain().drop_first() =~= tail_of(self.next));
        }
        EnvHandler { prefix: Some(prefix.to_owned()), next: self.next }
    }
}

impl<'a> Handler<'a> for EnvHandler<'a> {
    closed spec fn chain(&self) -> Seq<Source> {
        seq![Source::Env { prefix: opt_view(self.prefix) }] + tail_of(self.next)
    }

    fn handle_request<'c>(&'c self, key: &str) -> (step: Step<'c>) {
        proof {
            assert(self.chain().drop_first() =~= tail_of(self.next));
        }
        Step::Ask(
            Pending {
                key: key.to_owned(),
                lookup: Lookup::Env(env_variable(&self.prefix, key)),
                reading: Reading::Verbatim,
                rest: successor(&self.next),
            },
        )
    }

    fn into_node(self) -> (node: Node<'a>) {
        Node::Env(self)
    }
}

impl<'a> FileHandler<'a> {
    /// A source that reads the file at `file_path`, with no successor.
    pub fn new(file_path: &str) -> (handler: Self)
        ensures
            handler.chain() == seq![Source::File { path: file_path@ }],
    {
        FileHandler { file_path: file_path.to_owned(), next: None }
    }

    /// Puts `handler` behind this source, in place of any earlier successor.
    pub fn next<H: Handler<'a>>(self, handler: Box<H>) -> (linked: Self)
        ensures
            linked.chain() == seq![self.chain()[0]] + handler.chain(),
    {
        let node = (*handler).into_node();
        FileHandler { file_path: self.file_path, next: Some(Box::new(node)) }
    }
}

impl<'a> Handler<'a> for FileHandler<'a> {
    closed spec fn chain(&self) -> Seq<Source> {
        seq![Source::File { path: self.file_path@ }] + tail_of(self.next)
    }

    fn handle_request<'c>(&'c self, key: &str) -> (step: Step<'c>) {
        proof {
            assert(self.chain().drop_first() =~= tail_of(self.next));
        }
        ask_file(self, Reading::Verbatim, key)
    }

    fn into_node(self) -> (node: Node<'a>) {
        Node::File(self)
    }
}

impl<'a> JSONFileHandler<'a> {
    /// A source that searches the JSON document at `file_path`, with no
    /// successor.
    pub fn new(file_path: &str) -> (handler: Self)
        ensures
            handler.chain() == seq![Source::JsonFile { path: file_path@ }],
    {
        let file_handler = FileHandler::new(file_path);
        proof {
            assert(file_handler.chain()[0] == Source::File { path: file_handler.file_path@ });
            assert(file_handler.chain().drop_first() =~= tail_of(file_handler.next));
            assert(tail_of(file_handler.next) =~= Seq::<Source>::empty());
        }
        JSONFileHandler { file_handler }
    }

    /// Puts `handler` behind this source, in place of any earlier successor.
    pub fn next<H: Handler<'a>>(self, handler: Box<H>) -> (linked: Self)
        ensures
            linked.chain() == seq![self.chain()[0]] + handler.chain(),
    {
        let ghost path = self.file_handler.file_path@;
        let ghost behind = handler.chain();
        let file_handler = self.file_handler.next(handler);
        proof {
            assert(file_handler.chain()[0] == Source::File { path: file_handler.file_path@ });
            assert(file_handler.chain()[0] == Source::File { path });
            assert(file_handler.chain().drop_first() =~= tail_of(file_handler.next));
            assert(file_handler.chain().drop_first() =~= behind);
        }
        JSONFileHandler { file_handler }
    }
}

impl<'a> Handler<'a> for JSONFileHandler<'a> {
    closed spec fn chain(&self) -> Seq<Source> {
        seq![Source::JsonFile { path: self.file_handler.file_path@ }] + tail_of(self.file_handler.next)
    }

    fn handle_request<'c>(&'c self, key: &str) -> (step: Step<'c>) {
        proof {
            assert(self.chain().drop_first() =~= tail_of(self.file_handler.next));
        }
        ask_file(&self.file_handler, Reading::Json, key)
    }

    fn into_node(self) -> (node: Node<'a>) {
        Node::JsonFile(self)
    }
}

impl<'a> CfgFileHandler<'a> {
    /// A source that looks keys up in the flat table at `file_path`, with
    /// no successor.
    pub fn new(file_path: &str) -> (handler: Self)
        ensures
            handler.chain() == seq![Source::CfgFile { path: file_path@ }],
    {
        let file_handler = FileHandler::new(file_path);
        proof {
            assert(file_handler.chain()[0] == Source::File { path: file_handler.file_path@ });
            assert(file_handler.chain().drop_first() =~= tail_of(file_handler.next));
            assert(tail_of(file_handler.next) =~= Seq::<Source>::empty());
        }
        CfgFileHandler { file_handler }
    }

    /// Puts `handler` behind this source, in place of any earlier successor.
    pub fn next<H: Handler<'a>>(self, handler: Box<H>) -> (linked: Self)
        ensures
            linked.chain() == seq![self.chain()[0]] + handler.chain(),
    {
        let ghost path = self.file_handler.file_path@;
        let ghost behind = handler.chain();
        let file_handler = self.file_handler.next(handler);
        proof {
            assert(file_handler.chain()[0] == Source::File { path: file_handler.file_path@ });
            assert(file_handler.chain()[0] == Source::File { path });
            assert(file_handler.chain().drop_first() =~= tail_of(file_handler.next));
            assert(file_handler.chain().drop_first() =~= behind);
        }
        CfgFileHandler { file_handler }
    }
}

impl<'a> Handler<'a> for CfgFileHandler<'a> {
    closed spec fn chain(&self) -> Seq<Source> {
        seq![Source::CfgFile { path: self.file_handler.file_path@ }] + tail_of(self.file_handler.next)
    }

    fn handle_request<'c>(&'c self, key: &str) -> (step: Step<'c>)
        decreases *self,
    {
        proof {
            assert(self.chain().drop_first() =~= tail_of(self.file_handler.next));
        }
        match detect_format(self.file_handler.file_path.as_str()) {
            Some(format) => ask_file(&self.file_handler, Reading::Flat(format), key),
            None => pass(&self.file_handler.next, key),
        }
    }

    fn into_node(self) -> (node: Node<'a>) {
        Node::CfgFile(self)
    }
}

/// Every answer that `read` may give is what `world` holds for the lookup.
pub open spec fn reads_from<F: Fn(&Lookup) -> Option<String>>(read: F, world: World) -> bool {
    forall|lookup: &Lookup, found: Option<String>| #[trigger]
        call_ensures(read, (lookup,), found) ==> opt_view(found) == found_in(world, lookup@)
}

/// What each of `given` holds, as characters.
pub open spec fn views_of(given: Seq<Option<String>>) -> Seq<Option<Seq<char>>> {
    given.map_values(|found: Option<String>| opt_view(found))
}

/// `asked` and `given` are the readings of a resolution that began with
/// `first`: each lookup is the one that the resolution asked for after the
/// readings before it, and each answer is one that `read` gives to it.
pub open spec fn readings_of<F: Fn(&Lookup) -> Option<String>>(
    read: F,
    first: StepModel,
    asked: Seq<Lookup>,
    given: Seq<Option<String>>,
) -> bool {
    &&& asked.len() == given.len()
    &&& forall|i: int|
        0 <= i < asked.len() ==> {
            &&& call_ensures(read, (&#[trigger] asked[i],), given[i])
            &&& advance(first, views_of(given).take(i)) matches StepModel::Ask(pending) && pending.lookup
                == asked[i]@
        }
}

/// Resolves `key` along the chain that starts at `handler`, with `read`
/// doing every reading that the chain asks for.
///
/// Each source is consulted at most once, in order, and nothing behind the
/// first source that answers is read. Whatever world `read` answers from,
/// the result is the value that `key` resolves to in that world. Whatever
/// `read` answers, the result is where the steps of the resolution end for
/// the readings that `read` has made, each of them what the step before it
/// asked for; a chain that ends in a default gives a value, and a
/// resolution that needs no reading gives what its first step holds.
pub fn resolve_with<'a, H: Handler<'a>, F: Fn(&Lookup) -> Option<String>>(
    handler: &H,
    key: &str,
    read: F,
) -> (result: Option<String>)
    requires
        forall|lookup: &Lookup| call_requires(read, (lookup,)),
    ensures
        forall|world: World| reads_from(read, world) ==> opt_view(result) == resolve(handler.chain(), key@, world),
        ends_in_default(handler.chain()) ==> result is Some,
        first_step(handler.chain(), key@) matches StepModel::Done(answer) ==> opt_view(result) == answer,
        exists|asked: Seq<Lookup>, given: Seq<Option<String>>| #[trigger]
            readings_of(read, first_step(handler.chain(), key@), asked, given) && advance(
                first_step(handler.chain(), key@),
                views_of(given),
            ) == StepModel::Done(opt_view(result)),
{
    let mut step = handler.handle_request(key);
    let ghost first = first_step(handler.chain(), key@);
    let ghost asked: Seq<Lookup> = Seq::empty();
    let ghost given: Seq<Option<String>> = Seq::empty();
    proof {
        assert(views_of(given) =~= Seq::<Option<Seq<char>>>::empty());
    }
    proof {
        if ends_in_default(handler.chain()) {
            lemma_first_step_answers(handler.chain(), key@);
        }
        assert forall|world: World| reads_from(read, world) implies run(step@, world) == resolve(
            handler.chain(),
            key@,
            world,
        ) by {
            lemma_run_is_resolve(handler.chain(), key@, world);
        }
    }
    loop
        invariant
            forall|lookup: &Lookup| call_requires(read, (lookup,)),
            forall|world: World| reads_from(read, world) ==> run(step@, world) == resolve(handler.chain(), key@, world),
            ends_in_default(handler.chain()) ==> answers_surely(step@),
            first_step(handler.chain(), key@) is Done ==> step@ == first_step(handler.chain(), key@),
            first == first_step(handler.chain(), key@),
            readings_of(read, first, asked, given),
            advance(first, views_of(given)) == step@,
        decreases remaining(step@),
    {
        match step {
            Step::Done(result) => {
                return result;
            },
            Step::Ask(pending) => {
                let found = read(&pending.lookup);
                proof {
                    let longer = given.push(found);
                    assert(views_of(longer) =~= views_of(given).push(opt_view(found)));
                    assert(views_of(longer).take(given.len() as int) =~= views_of(given));
                    assert forall|i: int| 0 <= i < given.len() implies #[trigger] views_of(longer).take(i)
                        == views_of(given).take(i) by {
                        assert(views_of(longer).take(i) =~= views_of(given).take(i));
                    }
                    lemma_advance_push(first, views_of(given), opt_view(found));
                    assert(readings_of(read, first, asked.push(pending.lookup), longer));
                    asked = asked.push(pending.lookup);
                    given = longer;
                    lemma_next_step_remaining(pending@, opt_view(found));
                    if ends_in_default(handler.chain()) {
                        lemma_next_step_answers(pending@, opt_view(found));
                    }
                }
                step = pending.resume(found);
            },
        }
    }
}

} // verus!
