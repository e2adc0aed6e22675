//! What is known about the host so far, and what still has to be asked.
//!
//! A decision is made from observations alone. Where one that it needs is missing, the decision
//! comes back as the query to answer: the caller asks the host, records the answer and decides
//! again. The mathematical counterpart of a decision is a value over a whole `World`, together
//! with the queries that lead to that value, in order.
use vstd::prelude::*;

use crate::path::{HostPath, Name, NameModel, PathModel};

verus! {

/// What a query asks.
pub enum QueryModel {
    IsDir(PathModel),
    IsFile(PathModel),
    Exists(PathModel),
    Size(PathModel),
    CanOpen(PathModel),
    Entries(PathModel),
    Content(PathModel),
    Canonical(PathModel),
    Display(PathModel),
    Resolve(PathModel, Seq<char>),
    Worktrees(PathModel),
}

/// What an answer says.
pub enum AnswerModel {
    Flag(bool),
    Size(Option<u64>),
    Names(Option<Seq<NameModel>>),
    Text(Option<Seq<char>>),
    Path(Option<PathModel>),
    Output(Option<Seq<u8>>),
}

/// An answer to every query that it has a key for.
pub type World = Map<QueryModel, AnswerModel>;

/// A question to the host that reads something and changes nothing.
#[derive(Debug)]
pub enum Query {
    /// Whether the path leads to a directory. Answered by `Answer::Flag`.
    IsDir(HostPath),
    /// Whether the path leads to a regular file. Answered by `Answer::Flag`.
    IsFile(HostPath),
    /// Whether the path leads to anything. Answered by `Answer::Flag`.
    Exists(HostPath),
    /// The size in bytes of what the path leads to. Answered by `Answer::Size`.
    Size(HostPath),
    /// Whether the file can be opened for reading. Answered by `Answer::Flag`.
    CanOpen(HostPath),
    /// The names of the readable entries of the directory. Answered by `Answer::Names`.
    Entries(HostPath),
    /// The content of the file, if that is Unicode. Answered by `Answer::Text`.
    Content(HostPath),
    /// The absolute form of the path without links. Answered by `Answer::Path`.
    Canonical(HostPath),
    /// The path as text, with what is not Unicode replaced. Answered by `Answer::Text`.
    Display(HostPath),
    /// The path that the text means when it is read from the directory: the text joined to it, or
    /// the text alone where that is absolute. Every `..` stays as it is. Answered by
    /// `Answer::Path`.
    Resolve(HostPath, String),
    /// What `git` prints when it lists the worktrees of the repository, if it succeeds. Answered
    /// by `Answer::Output`.
    Worktrees(HostPath),
}

/// What the host answered. An answer of another kind than its query asks for counts as the
/// negative one: `false`, or nothing.
#[derive(Debug)]
pub enum Answer {
    Flag(bool),
    Size(Option<u64>),
    Names(Option<Vec<Name>>),
    Text(Option<String>),
    Path(Option<HostPath>),
    Output(Option<Vec<u8>>),
}

impl View for Query {
    type V = QueryModel;

    open spec fn view(&self) -> QueryModel {
        match self {
            Query::IsDir(path) => QueryModel::IsDir(path@),
            Query::IsFile(path) => QueryModel::IsFile(path@),
            Query::Exists(path) => QueryModel::Exists(path@),
            Query::Size(path) => QueryModel::Size(path@),
            Query::CanOpen(path) => QueryModel::CanOpen(path@),
            Query::Entries(path) => QueryModel::Entries(path@),
            Query::Content(path) => QueryModel::Content(path@),
            Query::Canonical(path) => QueryModel::Canonical(path@),
            Query::Display(path) => QueryModel::Display(path@),
            Query::Resolve(path, text) => QueryModel::Resolve(path@, text@),
            Query::Worktrees(path) => QueryModel::Worktrees(path@),
        }
    }
}

impl View for Answer {
    type V = AnswerModel;

    open spec fn view(&self) -> AnswerModel {
        match self {
            Answer::Flag(flag) => AnswerModel::Flag(*flag),
            Answer::Size(size) => AnswerModel::Size(*size),
            Answer::Names(names) => AnswerModel::Names(names.deep_view()),
            Answer::Text(text) => AnswerModel::Text(text.deep_view()),
            Answer::Path(path) => AnswerModel::Path(path.deep_view()),
            Answer::Output(output) => AnswerModel::Output(output.deep_view()),
        }
    }
}

impl Query {
    /// Whether both ask the same.
    pub fn same(&self, other: &Query) -> (same: bool)
        ensures
            same == (self@ == other@),
    {
        match (self, other) {
            (Query::IsDir(a), Query::IsDir(b)) => a.same(b),
            (Query::IsFile(a), Query::IsFile(b)) => a.same(b),
            (Query::Exists(a), Query::Exists(b)) => a.same(b),
            (Query::Size(a), Query::Size(b)) => a.same(b),
            (Query::CanOpen(a), Query::CanOpen(b)) => a.same(b),
            (Query::Entries(a), Query::Entries(b)) => a.same(b),
            (Query::Content(a), Query::Content(b)) => a.same(b),
            (Query::Canonical(a), Query::Canonical(b)) => a.same(b),
            (Query::Display(a), Query::Display(b)) => a.same(b),
            (Query::Resolve(a, s), Query::Resolve(b, t)) => a.same(b) && crate::path::same_text(
                s.as_str(),
                t.as_str(),
            ),
            (Query::Worktrees(a), Query::Worktrees(b)) => a.same(b),
            _ => false,
        }
    }
}

/// A decision: made, or waiting for the answer to a query.
#[derive(Debug)]
pub enum Progress<T> {
    Done(T),
    Need(Query),
}

/// What a decision comes to.
pub enum ProgressModel<T> {
    Done(T),
    Need(QueryModel),
}

impl<T: DeepView> View for Progress<T> {
    type V = ProgressModel<T::V>;

    open spec fn view(&self) -> ProgressModel<T::V> {
        match self {
            Progress::Done(value) => ProgressModel::Done(value.deep_view()),
            Progress::Need(query) => ProgressModel::Need(query@),
        }
    }
}

/// The first of the queries that `seen` does not answer.
pub open spec fn first_unseen(seen: World, asked: Seq<QueryModel>) -> Option<QueryModel>
    decreases asked.len(),
{
    if asked.len() == 0 {
        None
    } else if !seen.contains_key(asked[0]) {
        Some(asked[0])
    } else {
        first_unseen(seen, asked.drop_first())
    }
}

/// What comes of a decision that asks `asked` on its way to `value`: the value, once all of that
/// is answered, and the first query that is not until then.
pub open spec fn settle<T>(seen: World, asked: Seq<QueryModel>, value: T) -> ProgressModel<T> {
    match first_unseen(seen, asked) {
        Some(query) => ProgressModel::Need(query),
        None => ProgressModel::Done(value),
    }
}

/// The queries of a further step, if it is taken at all.
pub open spec fn also(taken: bool, asked: Seq<QueryModel>) -> Seq<QueryModel> {
    if taken {
        asked
    } else {
        Seq::empty()
    }
}

/// The queries of one step after the other, one step for each item.
pub open spec fn each_asked<A>(items: Seq<A>, asked: spec_fn(A) -> Seq<QueryModel>) -> Seq<
    QueryModel,
>
    decreases items.len(),
{
    if items.len() == 0 {
        Seq::empty()
    } else {
        asked(items[0]) + each_asked(items.drop_first(), asked)
    }
}

/// What the first item that yields something yields.
pub open spec fn first_found<A, B>(items: Seq<A>, find: spec_fn(A) -> Option<B>) -> Option<B>
    decreases items.len(),
{
    if items.len() == 0 {
        None
    } else {
        match find(items[0]) {
            Some(found) => Some(found),
            None => first_found(items.drop_first(), find),
        }
    }
}

/// The queries of one step after the other, one step for each item, up to the first that yields
/// something.
pub open spec fn first_found_asked<A, B>(
    items: Seq<A>,
    find: spec_fn(A) -> Option<B>,
    asked: spec_fn(A) -> Seq<QueryModel>,
) -> Seq<QueryModel>
    decreases items.len(),
{
    if items.len() == 0 {
        Seq::empty()
    } else {
        asked(items[0]) + also(
            find(items[0]) is None,
            first_found_asked(items.drop_first(), find, asked),
        )
    }
}

/// Whether everything that was seen is so in `world`.
pub open spec fn agrees(seen: World, world: World) -> bool {
    forall|query: QueryModel| #[trigger]
        seen.contains_key(query) ==> world.contains_key(query) && world[query] == seen[query]
}

pub broadcast proof fn first_unseen_add(seen: World, a: Seq<QueryModel>, b: Seq<QueryModel>)
    ensures
        #[trigger] first_unseen(seen, a + b) == match first_unseen(seen, a) {
            Some(query) => Some(query),
            None => first_unseen(seen, b),
        },
    decreases a.len(),
{
    if a.len() == 0 {
        assert(a + b =~= b);
    } else {
        assert((a + b).drop_first() =~= a.drop_first() + b);
        first_unseen_add(seen, a.drop_first(), b);
    }
}

pub broadcast proof fn first_unseen_one(seen: World, query: QueryModel)
    ensures
        #[trigger] first_unseen(seen, Seq::empty().push(query)) == if seen.contains_key(query) {
            None
        } else {
            Some(query)
        },
{
    assert(Seq::empty().push(query).drop_first() =~= Seq::<QueryModel>::empty());
    assert(first_unseen(seen, Seq::empty()) == None::<QueryModel>);
}

pub broadcast proof fn first_unseen_none(seen: World)
    ensures
        #[trigger] first_unseen(seen, Seq::empty()) == None::<QueryModel>,
{
}

/// The first open query of the items from `i` on is one of the item at `i`, or of those after it.
pub proof fn each_asked_unfolds<A>(
    seen: World,
    items: Seq<A>,
    i: int,
    asked: spec_fn(A) -> Seq<QueryModel>,
)
    requires
        0 <= i < items.len(),
    ensures
        first_unseen(seen, each_asked(items.skip(i), asked)) == match first_unseen(
            seen,
            asked(items[i]),
        ) {
            Some(query) => Some(query),
            None => first_unseen(seen, each_asked(items.skip(i + 1), asked)),
        },
{
    broadcast use group_settle;

    assert(items.skip(i).drop_first() =~= items.skip(i + 1));
}

/// What comes of the items from `i` on is what comes of the item at `i` or, where that yields
/// nothing, of those after it.
pub proof fn first_found_unfolds<A, B>(
    seen: World,
    items: Seq<A>,
    i: int,
    find: spec_fn(A) -> Option<B>,
    asked: spec_fn(A) -> Seq<QueryModel>,
)
    requires
        0 <= i < items.len(),
    ensures
        settle(
            seen,
            first_found_asked(items.skip(i), find, asked),
            first_found(items.skip(i), find),
        ) == match settle(seen, asked(items[i]), find(items[i])) {
            ProgressModel::Done(None) => settle(
                seen,
                first_found_asked(items.skip(i + 1), find, asked),
                first_found(items.skip(i + 1), find),
            ),
            other => other,
        },
{
    broadcast use group_settle;

    assert(items.skip(i).drop_first() =~= items.skip(i + 1));
}

/// What is found first comes from an item, no item before that one yields anything, and where
/// nothing is found, no item does.
pub proof fn first_found_comes_from_an_item<A, B>(items: Seq<A>, find: spec_fn(A) -> Option<B>)
    ensures
        match first_found(items, find) {
            Some(found) => exists|i: int|
                0 <= i < items.len() && #[trigger] find(items[i]) == Some(found) && forall|j: int|
                    0 <= j < i ==> #[trigger] find(items[j]) is None,
            None => forall|i: int| 0 <= i < items.len() ==> #[trigger] find(items[i]) is None,
        },
    decreases items.len(),
{
    if items.len() > 0 {
        if find(items[0]) is None {
            let rest = items.drop_first();
            first_found_comes_from_an_item(rest, find);
            match first_found(rest, find) {
                Some(found) => {
                    let i = choose|i: int|
                        0 <= i < rest.len() && #[trigger] find(rest[i]) == Some(found) && forall|
                            j: int,
                        |
                            0 <= j < i ==> #[trigger] find(rest[j]) is None;
                    assert forall|j: int| 0 <= j < i + 1 implies #[trigger] find(
                        items[j],
                    ) is None by {
                        if j > 0 {
                            assert(find(rest[j - 1]) is None);
                        }
                    }
                    assert(find(items[i + 1]) == Some(found));
                },
                None => {
                    assert forall|i: int| 0 <= i < items.len() implies #[trigger] find(
                        items[i],
                    ) is None by {
                        if i > 0 {
                            assert(find(rest[i - 1]) is None);
                        }
                    }
                },
            }
        } else {
            assert(find(items[0]) == first_found(items, find));
        }
    }
}

pub broadcast group group_settle {
    first_unseen_add,
    first_unseen_one,
    first_unseen_none,
}

/// A decision waits only for a query that it asks and that is not answered; it is made as soon
/// as there is none.
pub proof fn settle_waits_only_for_what_is_open<T>(seen: World, asked: Seq<QueryModel>, value: T)
    ensures
        match settle(seen, asked, value) {
            ProgressModel::Need(query) => asked.contains(query) && !seen.contains_key(query),
            ProgressModel::Done(made) => {
                &&& made == value
                &&& forall|i: int| 0 <= i < asked.len() ==> seen.contains_key(#[trigger] asked[i])
            },
        },
    decreases asked.len(),
{
    if asked.len() > 0 && seen.contains_key(asked[0]) {
        settle_waits_only_for_what_is_open(seen, asked.drop_first(), value);
        match first_unseen(seen, asked.drop_first()) {
            Some(query) => {
                let i = choose|i: int|
                    0 <= i < asked.drop_first().len() && asked.drop_first()[i] == query;
                assert(asked[i + 1] == query);
            },
            None => {
                assert forall|i: int| 0 <= i < asked.len() implies seen.contains_key(
                    #[trigger] asked[i],
                ) by {
                    if i > 0 {
                        assert(asked.drop_first()[i - 1] == asked[i]);
                    }
                }
            },
        }
    }
}

pub open spec fn flag(answer: AnswerModel) -> bool {
    answer matches AnswerModel::Flag(flag) && flag
}

pub open spec fn is_dir(world: World, path: PathModel) -> bool {
    flag(world[QueryModel::IsDir(path)])
}

pub open spec fn is_file(world: World, path: PathModel) -> bool {
    flag(world[QueryModel::IsFile(path)])
}

pub open spec fn exists_at(world: World, path: PathModel) -> bool {
    flag(world[QueryModel::Exists(path)])
}

pub open spec fn size(world: World, path: PathModel) -> Option<u64> {
    match world[QueryModel::Size(path)] {
        AnswerModel::Size(size) => size,
        _ => None,
    }
}

pub open spec fn can_open(world: World, path: PathModel) -> bool {
    flag(world[QueryModel::CanOpen(path)])
}

pub open spec fn entries(world: World, path: PathModel) -> Option<Seq<NameModel>> {
    match world[QueryModel::Entries(path)] {
        AnswerModel::Names(names) => names,
        _ => None,
    }
}

pub open spec fn content(world: World, path: PathModel) -> Option<Seq<char>> {
    match world[QueryModel::Content(path)] {
        AnswerModel::Text(text) => text,
        _ => None,
    }
}

pub open spec fn canonical(world: World, path: PathModel) -> Option<PathModel> {
    match world[QueryModel::Canonical(path)] {
        AnswerModel::Path(path) => path,
        _ => None,
    }
}

pub open spec fn display(world: World, path: PathModel) -> Seq<char> {
    match world[QueryModel::Display(path)] {
        AnswerModel::Text(Some(text)) => text,
        _ => Seq::empty(),
    }
}

pub open spec fn resolve(world: World, base: PathModel, text: Seq<char>) -> PathModel {
    match world[QueryModel::Resolve(base, text)] {
        AnswerModel::Path(Some(path)) => path,
        _ => Seq::empty(),
    }
}

pub open spec fn worktrees(world: World, repository: PathModel) -> Option<Seq<u8>> {
    match world[QueryModel::Worktrees(repository)] {
        AnswerModel::Output(output) => output,
        _ => None,
    }
}

/// The answers collected so far. Of two answers to one query the later one counts.
#[derive(Debug)]
pub struct Observations {
    entries: Vec<(Query, Answer)>,
}

spec fn world_of(entries: Seq<(Query, Answer)>) -> World
    decreases entries.len(),
{
    if entries.len() == 0 {
        Map::empty()
    } else {
        world_of(entries.drop_last()).insert(entries.last().0@, entries.last().1@)
    }
}

impl View for Observations {
    type V = World;

    closed spec fn view(&self) -> World {
        world_of(self.entries@)
    }
}

impl Observations {
    /// Nothing seen yet.
    pub fn new() -> (seen: Observations)
        ensures
            seen@ == World::empty(),
    {
        Observations { entries: Vec::new() }
    }

    /// Adds the answer to a query.
    pub fn record(&mut self, query: Query, answer: Answer)
        ensures
            final(self)@ == old(self)@.insert(query@, answer@),
    {
        self.entries.push((query, answer));
        assert(self.entries@.drop_last() =~= old(self).entries@);
    }

    /// The answer to the query, if there is one.
    pub fn answer(&self, query: &Query) -> (answer: Option<&Answer>)
        ensures
            match answer {
                Some(answer) => self@.contains_key(query@) && self@[query@] == answer@,
                None => !self@.contains_key(query@),
            },
    {
        let mut i: usize = self.entries.len();
        assert(self.entries@.take(i as int) =~= self.entries@);
        while i > 0
            invariant
                i <= self.entries@.len(),
                self@.contains_key(query@) == world_of(self.entries@.take(i as int)).contains_key(
                    query@,
                ),
                self@.contains_key(query@) ==> self@[query@] == world_of(
                    self.entries@.take(i as int),
                )[query@],
            decreases i,
        {
            assert(self.entries@.take(i as int).drop_last() =~= self.entries@.take(i - 1));
            i = i - 1;
            if self.entries[i].0.same(query) {
                return Some(&self.entries[i].1);
            }
        }
        None
    }

    fn flag(&self, query: Query) -> (answer: Progress<bool>)
        ensures
            answer@ == settle(self@, seq![query@], flag(self@[query@])),
    {
        broadcast use group_settle;

        match self.answer(&query) {
            Some(Answer::Flag(flag)) => Progress::Done(*flag),
            Some(_) => Progress::Done(false),
            None => Progress::Need(query),
        }
    }

    pub fn is_dir(&self, path: &HostPath) -> (answer: Progress<bool>)
        ensures
            answer@ == settle(self@, seq![QueryModel::IsDir(path@)], is_dir(self@, path@)),
    {
        self.flag(Query::IsDir(path.clone()))
    }

    pub fn is_file(&self, path: &HostPath) -> (answer: Progress<bool>)
        ensures
            answer@ == settle(self@, seq![QueryModel::IsFile(path@)], is_file(self@, path@)),
    {
        self.flag(Query::IsFile(path.clone()))
    }

    pub fn exists_at(&self, path: &HostPath) -> (answer: Progress<bool>)
        ensures
            answer@ == settle(self@, seq![QueryModel::Exists(path@)], exists_at(self@, path@)),
    {
        self.flag(Query::Exists(path.clone()))
    }

    pub fn can_open(&self, path: &HostPath) -> (answer: Progress<bool>)
        ensures
            answer@ == settle(self@, seq![QueryModel::CanOpen(path@)], can_open(self@, path@)),
    {
        self.flag(Query::CanOpen(path.clone()))
    }

    pub fn size(&self, path: &HostPath) -> (answer: Progress<Option<u64>>)
        ensures
            answer@ == settle(self@, seq![QueryModel::Size(path@)], size(self@, path@)),
    {
        broadcast use group_settle;

        let query = Query::Size(path.clone());
        match self.answer(&query) {
            Some(Answer::Size(size)) => Progress::Done(*size),
            Some(_) => Progress::Done(None),
            None => Progress::Need(query),
        }
    }

    pub fn entries(&self, path: &HostPath) -> (answer: Progress<Option<&Vec<Name>>>)
        ensures
            answer@ == settle(self@, seq![QueryModel::Entries(path@)], entries(self@, path@)),
    {
        broadcast use group_settle;

        let query = Query::Entries(path.clone());
        match self.answer(&query) {
            Some(Answer::Names(names)) => Progress::Done(names.as_ref()),
            Some(_) => Progress::Done(None),
            None => Progress::Need(query),
        }
    }

    pub fn content(&self, path: &HostPath) -> (answer: Progress<Option<&String>>)
        ensures
            answer@ == settle(self@, seq![QueryModel::Content(path@)], content(self@, path@)),
    {
        broadcast use group_settle;

        let query = Query::Content(path.clone());
        match self.answer(&query) {
            Some(Answer::Text(text)) => Progress::Done(text.as_ref()),
            Some(_) => Progress::Done(None),
            None => Progress::Need(query),
        }
    }

    pub fn canonical(&self, path: &HostPath) -> (answer: Progress<Option<&HostPath>>)
        ensures
            answer@ == settle(self@, seq![QueryModel::Canonical(path@)], canonical(self@, path@)),
    {
        broadcast use group_settle;

        let query = Query::Canonical(path.clone());
        match self.answer(&query) {
            Some(Answer::Path(path)) => Progress::Done(path.as_ref()),
            Some(_) => Progress::Done(None),
            None => Progress::Need(query),
        }
    }

    pub fn display(&self, path: &HostPath) -> (answer: Progress<String>)
        ensures
            answer@ == settle(self@, seq![QueryModel::Display(path@)], display(self@, path@)),
    {
        broadcast use group_settle;

        let query = Query::Display(path.clone());
        match self.answer(&query) {
            Some(Answer::Text(Some(text))) => Progress::Done(text.clone()),
            Some(_) => Progress::Done(String::new()),
            None => Progress::Need(query),
        }
    }

    pub fn resolve(&self, base: &HostPath, text: &str) -> (answer: Progress<HostPath>)
        ensures
            answer@ == settle(
                self@,
                seq![QueryModel::Resolve(base@, text@)],
                resolve(self@, base@, text@),
            ),
    {
        broadcast use group_settle;

        let query = Query::Resolve(base.clone(), text.to_owned());
        match self.answer(&query) {
            Some(Answer::Path(Some(path))) => Progress::Done(path.clone()),
            Some(_) => Progress::Done(HostPath::empty()),
            None => Progress::Need(query),
        }
    }

    pub fn worktrees(&self, repository: &HostPath) -> (answer: Progress<Option<&Vec<u8>>>)
        ensures
            answer@ == settle(
                self@,
                seq![QueryModel::Worktrees(repository@)],
                worktrees(self@, repository@),
            ),
    {
        broadcast use group_settle;

        let query = Query::Worktrees(repository.clone());
        match self.answer(&query) {
            Some(Answer::Output(output)) => Progress::Done(output.as_ref()),
            Some(_) => Progress::Done(None),
            None => Progress::Need(query),
        }
    }
}

/// Answers are taken as they were given: each reader looks at the answer to its own query about the
/// path itself, and an answer of another kind counts as the negative one.
pub proof fn answers_are_taken_as_given(
    world: World,
    path: PathModel,
    text: Seq<char>,
    bytes: u64,
    names: Seq<NameModel>,
    words: Seq<char>,
    place: PathModel,
    output: Seq<u8>,
)
    ensures
        is_dir(world, path) <==> world[QueryModel::IsDir(path)] == AnswerModel::Flag(true),
        is_file(world, path) <==> world[QueryModel::IsFile(path)] == AnswerModel::Flag(true),
        exists_at(world, path) <==> world[QueryModel::Exists(path)] == AnswerModel::Flag(true),
        can_open(world, path) <==> world[QueryModel::CanOpen(path)] == AnswerModel::Flag(true),
        size(world, path) == Some(bytes) <==> world[QueryModel::Size(path)] == AnswerModel::Size(
            Some(bytes),
        ),
        entries(world, path) == Some(names) <==> world[QueryModel::Entries(path)]
            == AnswerModel::Names(Some(names)),
        content(world, path) == Some(words) <==> world[QueryModel::Content(path)]
            == AnswerModel::Text(Some(words)),
        canonical(world, path) == Some(place) <==> world[QueryModel::Canonical(path)]
            == AnswerModel::Path(Some(place)),
        world[QueryModel::Display(path)] == AnswerModel::Text(Some(words)) ==> display(world, path)
            == words,
        world[QueryModel::Resolve(path, text)] == AnswerModel::Path(Some(place)) ==> resolve(
            world,
            path,
            text,
        ) == place,
        worktrees(world, path) == Some(output) <==> world[QueryModel::Worktrees(path)]
            == AnswerModel::Output(Some(output)),
{
}

} // verus!
