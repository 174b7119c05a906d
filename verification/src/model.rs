//! What a chain of sources means: the value that a key resolves to in a
//! given world, the protocol by which a caller who does the reading drives a
//! resolution, and the laws that tie the two together.

use crate::flat::{flat_table, format_of, table_value, FileFormat};
use crate::json::{json_document, search};
use vstd::prelude::*;

verus! {

/// One source of a chain.
pub ghost enum Source {
    /// A fixed value, given for every key.
    Default { value: Seq<char> },
    /// Parsed command-line arguments: argument id to value.
    Arg { values: Map<Seq<char>, Seq<char>> },
    /// The process environment, read under an optional prefix.
    Env { prefix: Option<Seq<char>> },
    /// The whole text of the file at `path`, whatever the key.
    File { path: Seq<char> },
    /// The JSON document at `path`, searched in depth for the key.
    JsonFile { path: Seq<char> },
    /// The flat table at `path`, of the format that its extension names.
    CfgFile { path: Seq<char> },
}

/// Something that only the caller can read.
pub ghost enum LookupModel {
    /// The environment variable of this name.
    Env(Seq<char>),
    /// The text of the file at this path.
    File(Seq<char>),
}

/// How the text that a lookup brought is turned into the source's answer.
#[derive(Clone, Copy, Debug, PartialEq, Eq, Structural)]
pub enum Reading {
    /// The text is the answer.
    Verbatim,
    /// The text is a JSON document to search.
    Json,
    /// The text is a flat table of the given format.
    Flat(FileFormat),
}

/// What can be read outside the program at one moment.
pub ghost struct World {
    /// The environment variables that are set.
    pub env: Map<Seq<char>, Seq<char>>,
    /// The files that can be read as text.
    pub files: Map<Seq<char>, Seq<char>>,
}

/// The name of the variable that an environment source reads for `key`:
/// prefix and key joined, with nothing between them.
pub open spec fn env_name(prefix: Option<Seq<char>>, key: Seq<char>) -> Seq<char> {
    match prefix {
        Some(p) => p + key,
        None => key,
    }
}

/// What `source` has the caller read for `key`, and how it reads the answer.
/// `None` where the source answers without any reading.
pub open spec fn request_of(source: Source, key: Seq<char>) -> Option<(LookupModel, Reading)> {
    match source {
        Source::Default { value } => None,
        Source::Arg { values } => None,
        Source::Env { prefix } => Some((LookupModel::Env(env_name(prefix, key)), Reading::Verbatim)),
        Source::File { path } => Some((LookupModel::File(path), Reading::Verbatim)),
        Source::JsonFile { path } => Some((LookupModel::File(path), Reading::Json)),
        Source::CfgFile { path } => match format_of(path) {
            Some(format) => Some((LookupModel::File(path), Reading::Flat(format))),
            None => None,
        },
    }
}

/// The answer of a source that reads nothing from outside.
pub open spec fn own_answer(source: Source, key: Seq<char>) -> Option<Seq<char>> {
    match source {
        Source::Default { value } => Some(value),
        Source::Arg { values } => table_value(values, key),
        _ => None,
    }
}

/// The answer that `text`, read as `reading` says, holds for `key`.
pub open spec fn read_text(reading: Reading, key: Seq<char>, text: Seq<char>) -> Option<Seq<char>> {
    match reading {
        Reading::Verbatim => Some(text),
        Reading::Json => match json_document(text) {
            Some(doc) => search(doc, key),
            None => None,
        },
        Reading::Flat(format) => match flat_table(text, format) {
            Some(table) => table_value(table, key),
            None => None,
        },
    }
}

/// The answer of a source whose lookup came back as `found`.
pub open spec fn read_answer(reading: Reading, key: Seq<char>, found: Option<Seq<char>>) -> Option<
    Seq<char>,
> {
    match found {
        Some(text) => read_text(reading, key, text),
        None => None,
    }
}

/// What `world` holds for `lookup`.
pub open spec fn found_in(world: World, lookup: LookupModel) -> Option<Seq<char>> {
    match lookup {
        LookupModel::Env(name) => table_value(world.env, name),
        LookupModel::File(path) => table_value(world.files, path),
    }
}

/// The answer of one source alone in `world`.
pub open spec fn answer_of(source: Source, key: Seq<char>, world: World) -> Option<Seq<char>> {
    match request_of(source, key) {
        Some((lookup, reading)) => read_answer(reading, key, found_in(world, lookup)),
        None => own_answer(source, key),
    }
}

/// The value that `key` resolves to along `chain` in `world`: the answer of
/// the first source that has one.
pub open spec fn resolve(chain: Seq<Source>, key: Seq<char>, world: World) -> Option<Seq<char>>
    decreases chain.len(),
{
    if chain.len() == 0 {
        None
    } else {
        match answer_of(chain[0], key, world) {
            Some(value) => Some(value),
            None => resolve(chain.drop_first(), key, world),
        }
    }
}

/// A resolution that waits for the caller to read something.
pub ghost struct PendingModel {
    /// The key being resolved.
    pub key: Seq<char>,
    /// What the caller is to read.
    pub lookup: LookupModel,
    /// How the waiting source reads what comes back.
    pub reading: Reading,
    /// The sources that follow the waiting one.
    pub rest: Seq<Source>,
}

/// The state of a resolution between two readings.
pub ghost enum StepModel {
    /// The resolution has ended with this result.
    Done(Option<Seq<char>>),
    /// The caller is to read and to resume.
    Ask(PendingModel),
}

/// The first step of resolving `key` along `chain`: sources that read
/// nothing are passed until one answers, one asks, or the chain ends.
pub open spec fn first_step(chain: Seq<Source>, key: Seq<char>) -> StepModel
    decreases chain.len(),
{
    if chain.len() == 0 {
        StepModel::Done(None)
    } else {
        match request_of(chain[0], key) {
            Some((lookup, reading)) => StepModel::Ask(
                PendingModel { key, lookup, reading, rest: chain.drop_first() },
            ),
            None => match own_answer(chain[0], key) {
                Some(value) => StepModel::Done(Some(value)),
                None => first_step(chain.drop_first(), key),
            },
        }
    }
}

/// The step after the caller has read `found` for `pending`.
pub open spec fn next_step(pending: PendingModel, found: Option<Seq<char>>) -> StepModel {
    match read_answer(pending.reading, pending.key, found) {
        Some(value) => StepModel::Done(Some(value)),
        None => first_step(pending.rest, pending.key),
    }
}

/// The step that `step` has become after the readings `answers`, one for
/// each step that asked, in order. A resolution that has ended stays as it
/// is.
pub open spec fn advance(step: StepModel, answers: Seq<Option<Seq<char>>>) -> StepModel
    decreases answers.len(),
{
    if answers.len() == 0 {
        step
    } else {
        match step {
            StepModel::Done(result) => step,
            StepModel::Ask(pending) => advance(next_step(pending, answers[0]), answers.drop_first()),
        }
    }
}

/// One more reading takes a waiting resolution one step further.
pub proof fn lemma_advance_push(step: StepModel, answers: Seq<Option<Seq<char>>>, found: Option<Seq<char>>)
    requires
        advance(step, answers) is Ask,
    ensures
        advance(step, answers.push(found)) == next_step(advance(step, answers)->Ask_0, found),
    decreases answers.len(),
{
    let longer = answers.push(found);
    if answers.len() == 0 {
        assert(longer.drop_first() =~= Seq::<Option<Seq<char>>>::empty());
        assert(longer[0] == found);
        assert(advance(next_step(step->Ask_0, found), longer.drop_first()) == next_step(step->Ask_0, found));
    } else {
        assert(longer.drop_first() =~= answers.drop_first().push(found));
        assert(longer[0] == answers[0]);
        lemma_advance_push(next_step(step->Ask_0, answers[0]), answers.drop_first(), found);
    }
}

/// The number of sources that a step may still consult.
pub open spec fn remaining(step: StepModel) -> nat {
    match step {
        StepModel::Done(result) => 0,
        StepModel::Ask(pending) => pending.rest.len() + 1,
    }
}

/// The result of driving `step` to its end with every lookup answered from
/// `world`.
pub open spec fn run(step: StepModel, world: World) -> Option<Seq<char>>
    decreases remaining(step),
{
    match step {
        StepModel::Done(result) => result,
        StepModel::Ask(pending) => {
            let next = next_step(pending, found_in(world, pending.lookup));
            if remaining(next) < remaining(step) {
                run(next, world)
            } else {
                None
            }
        },
    }
}

/// A first step never has more sources ahead than the chain is long.
pub proof fn lemma_first_step_remaining(chain: Seq<Source>, key: Seq<char>)
    ensures
        remaining(first_step(chain, key)) <= chain.len(),
    decreases chain.len(),
{
    if chain.len() > 0 {
        lemma_first_step_remaining(chain.drop_first(), key);
    }
}

/// Every step after a reading has fewer sources ahead than the one before:
/// a resolution ends after at most as many readings as the chain has sources.
pub proof fn lemma_next_step_remaining(pending: PendingModel, found: Option<Seq<char>>)
    ensures
        remaining(next_step(pending, found)) < remaining(StepModel::Ask(pending)),
{
    lemma_first_step_remaining(pending.rest, pending.key);
}

/// The protocol computes the chain's meaning: driven from its first step
/// with every lookup answered from `world`, a resolution ends with the value
/// that `key` resolves to in `world`.
pub proof fn lemma_run_is_resolve(chain: Seq<Source>, key: Seq<char>, world: World)
    ensures
        run(first_step(chain, key), world) == resolve(chain, key, world),
    decreases chain.len(),
{
    if chain.len() > 0 {
        let rest = chain.drop_first();
        lemma_run_is_resolve(rest, key, world);
        match request_of(chain[0], key) {
            Some((lookup, reading)) => {
                let pending = PendingModel { key, lookup, reading, rest };
                let next = next_step(pending, found_in(world, lookup));
                lemma_next_step_remaining(pending, found_in(world, lookup));
                assert(run(StepModel::Ask(pending), world) == run(next, world));
                match read_answer(reading, key, found_in(world, lookup)) {
                    Some(value) => {
                        assert(run(next, world) == Some(value));
                    },
                    None => {},
                }
            },
            None => {
                match own_answer(chain[0], key) {
                    Some(value) => {
                        assert(run(StepModel::Done(Some(value)), world) == Some(value));
                    },
                    None => {},
                }
            },
        }
    }
}

/// The chain's last source is a default.
pub open spec fn ends_in_default(chain: Seq<Source>) -> bool {
    chain.len() > 0 && chain.last() is Default
}

/// The resolution that `step` belongs to cannot end without a value: it has
/// ended with one, or a default stands at the end of what is still ahead.
pub open spec fn answers_surely(step: StepModel) -> bool {
    match step {
        StepModel::Done(result) => result is Some,
        StepModel::Ask(pending) => ends_in_default(pending.rest),
    }
}

/// Along a chain that ends in a default, the first step cannot end without
/// a value.
pub proof fn lemma_first_step_answers(chain: Seq<Source>, key: Seq<char>)
    requires
        ends_in_default(chain),
    ensures
        answers_surely(first_step(chain, key)),
    decreases chain.len(),
{
    if chain.len() > 1 {
        let rest = chain.drop_first();
        assert(rest.last() == chain.last());
        lemma_first_step_answers(rest, key);
    }
}

/// Whatever the caller has read, the step after one that cannot end
/// without a value cannot either.
pub proof fn lemma_next_step_answers(pending: PendingModel, found: Option<Seq<char>>)
    requires
        answers_surely(StepModel::Ask(pending)),
    ensures
        answers_surely(next_step(pending, found)),
{
    lemma_first_step_answers(pending.rest, pending.key);
}

/// A chain that ends in a default source resolves every key, in every world.
pub proof fn lemma_default_terminated(chain: Seq<Source>, key: Seq<char>, world: World)
    requires
        ends_in_default(chain),
    ensures
        resolve(chain, key, world) is Some,
        run(first_step(chain, key), world) is Some,
    decreases chain.len(),
{
    lemma_run_is_resolve(chain, key, world);
    if chain.len() > 1 {
        let rest = chain.drop_first();
        assert(rest.last() == chain.last());
        lemma_default_terminated(rest, key, world);
    }
}

/// An argument source answers with the value of the argument named `key`,
/// whatever follows it; where the arguments hold no such value, the chain
/// resolves to what its successors resolve to.
pub proof fn lemma_argument_first(
    values: Map<Seq<char>, Seq<char>>,
    rest: Seq<Source>,
    key: Seq<char>,
    world: World,
)
    ensures
        values.contains_key(key) ==> resolve(seq![Source::Arg { values }] + rest, key, world) == Some(
            values[key],
        ),
        !values.contains_key(key) ==> resolve(seq![Source::Arg { values }] + rest, key, world)
            == resolve(rest, key, world),
{
    let chain = seq![Source::Arg { values }] + rest;
    assert(chain.drop_first() =~= rest);
}

/// An environment source answers with the variable named by prefix and key
/// joined, where it is set; otherwise the chain resolves to what the
/// successors resolve to.
pub proof fn lemma_environment_first(
    prefix: Option<Seq<char>>,
    rest: Seq<Source>,
    key: Seq<char>,
    world: World,
)
    ensures
        resolve(seq![Source::Env { prefix }] + rest, key, world) == (if world.env.contains_key(
            env_name(prefix, key),
        ) {
            Some(world.env[env_name(prefix, key)])
        } else {
            resolve(rest, key, world)
        }),
{
    let chain = seq![Source::Env { prefix }] + rest;
    assert(chain.drop_first() =~= rest);
}

/// A file source answers every key with the whole text of its file, as it
/// is, where the file can be read; otherwise the chain resolves to what the
/// successors resolve to.
pub proof fn lemma_file_first(path: Seq<char>, rest: Seq<Source>, key: Seq<char>, world: World)
    ensures
        resolve(seq![Source::File { path }] + rest, key, world) == (if world.files.contains_key(path) {
            Some(world.files[path])
        } else {
            resolve(rest, key, world)
        }),
{
    let chain = seq![Source::File { path }] + rest;
    assert(chain.drop_first() =~= rest);
}

/// A source that has no answer leaves the result to its successors: the
/// chain resolves to what the rest of it resolves to.
pub proof fn lemma_miss_delegates(chain: Seq<Source>, key: Seq<char>, world: World)
    requires
        chain.len() > 0,
        answer_of(chain[0], key, world) is None,
    ensures
        resolve(chain, key, world) == resolve(chain.drop_first(), key, world),
{
}

/// A source that has an answer ends the resolution: nothing behind it
/// changes the result.
pub proof fn lemma_first_answer_wins(chain: Seq<Source>, key: Seq<char>, world: World)
    requires
        chain.len() > 0,
        answer_of(chain[0], key, world) is Some,
    ensures
        resolve(chain, key, world) == answer_of(chain[0], key, world),
{
}

/// Resolving is repeatable: two resolutions of the same key along the same
/// chain, each driven through the protocol and answered from the same world,
/// end with the same result.
pub proof fn lemma_resolve_repeatable(
    chain: Seq<Source>,
    key: Seq<char>,
    world: World,
    first: StepModel,
    second: StepModel,
)
    requires
        first == first_step(chain, key),
        second == first_step(chain, key),
    ensures
        run(first, world) == run(second, world),
        run(first, world) == resolve(chain, key, world),
{
    lemma_run_is_resolve(chain, key, world);
}

} // verus!
