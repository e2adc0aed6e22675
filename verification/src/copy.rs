//! Copying a directory, one request at a time.
use vstd::prelude::*;

use crate::path::{entry, is_within};
use crate::path::{HostPath, Name, NameModel, PathModel};

verus! {

/// What is still to be done with a pair of paths.
pub enum TaskModel {
    /// Make the destination directory.
    Create(PathModel, PathModel),
    /// List the source directory.
    List(PathModel, PathModel),
    /// Find out whether the source is a directory.
    Classify(PathModel, PathModel),
    /// Find out whether the source, which is no directory, is a file.
    ClassifyPlain(PathModel, PathModel),
    /// Copy the source, which is a file.
    Transfer(PathModel, PathModel),
}

/// What a request asks for.
pub enum CopyRequestModel {
    CreateDir(PathModel),
    ReadDir(PathModel),
    IsDir(PathModel),
    IsFile(PathModel),
    CopyFile(PathModel, PathModel),
}

/// What a reply says.
pub enum CopyReplyModel {
    Flag(bool),
    Names(Option<Seq<NameModel>>),
}

/// What a walk has still to do, with the next task last, and whether it has failed.
pub struct WalkModel {
    pub pending: Seq<TaskModel>,
    pub failed: bool,
}

#[derive(Debug)]
enum Task {
    Create(HostPath, HostPath),
    List(HostPath, HostPath),
    Classify(HostPath, HostPath),
    ClassifyPlain(HostPath, HostPath),
    Transfer(HostPath, HostPath),
}

/// Something to ask for on disk.
#[derive(Debug)]
pub enum CopyRequest {
    /// Make the directory and those above it. Replied to by a flag: whether it is there now.
    CreateDir(HostPath),
    /// The names of the readable entries of the directory. Replied to by names.
    ReadDir(HostPath),
    /// Whether the path leads to a directory. Replied to by a flag.
    IsDir(HostPath),
    /// Whether the path leads to a regular file. Replied to by a flag.
    IsFile(HostPath),
    /// Copy the first file to the second. Replied to by a flag: whether that succeeded.
    CopyFile(HostPath, HostPath),
}

/// What came of a request. A reply of the wrong kind counts as the negative one.
#[derive(Debug)]
pub enum CopyReply {
    Flag(bool),
    Names(Option<Vec<Name>>),
}

/// A directory that is being copied.
#[derive(Debug)]
pub struct CopyWalk {
    pending: Vec<Task>,
    failed: bool,
}

impl View for Task {
    type V = TaskModel;

    closed spec fn view(&self) -> TaskModel {
        match self {
            Task::Create(from, to) => TaskModel::Create(from@, to@),
            Task::List(from, to) => TaskModel::List(from@, to@),
            Task::Classify(from, to) => TaskModel::Classify(from@, to@),
            Task::ClassifyPlain(from, to) => TaskModel::ClassifyPlain(from@, to@),
            Task::Transfer(from, to) => TaskModel::Transfer(from@, to@),
        }
    }
}

impl DeepView for Task {
    type V = TaskModel;

    closed spec fn deep_view(&self) -> TaskModel {
        self@
    }
}

impl View for CopyRequest {
    type V = CopyRequestModel;

    open spec fn view(&self) -> CopyRequestModel {
        match self {
            CopyRequest::CreateDir(path) => CopyRequestModel::CreateDir(path@),
            CopyRequest::ReadDir(path) => CopyRequestModel::ReadDir(path@),
            CopyRequest::IsDir(path) => CopyRequestModel::IsDir(path@),
            CopyRequest::IsFile(path) => CopyRequestModel::IsFile(path@),
            CopyRequest::CopyFile(from, to) => CopyRequestModel::CopyFile(from@, to@),
        }
    }
}

impl DeepView for CopyRequest {
    type V = CopyRequestModel;

    open spec fn deep_view(&self) -> CopyRequestModel {
        self@
    }
}

impl View for CopyReply {
    type V = CopyReplyModel;

    open spec fn view(&self) -> CopyReplyModel {
        match self {
            CopyReply::Flag(flag) => CopyReplyModel::Flag(*flag),
            CopyReply::Names(names) => CopyReplyModel::Names(names.deep_view()),
        }
    }
}

impl View for CopyWalk {
    type V = WalkModel;

    closed spec fn view(&self) -> WalkModel {
        WalkModel { pending: self.pending.deep_view(), failed: self.failed }
    }
}

/// Whether the reply is a positive flag.
pub open spec fn is_yes(reply: CopyReplyModel) -> bool {
    reply matches CopyReplyModel::Flag(flag) && flag
}

/// The names that the reply gives, if it gives any.
pub open spec fn names_in(reply: CopyReplyModel) -> Option<Seq<NameModel>> {
    match reply {
        CopyReplyModel::Names(names) => names,
        _ => None,
    }
}

/// What a task asks for.
pub open spec fn request_of(task: TaskModel) -> CopyRequestModel {
    match task {
        TaskModel::Create(from, to) => CopyRequestModel::CreateDir(to),
        TaskModel::List(from, to) => CopyRequestModel::ReadDir(from),
        TaskModel::Classify(from, to) => CopyRequestModel::IsDir(from),
        TaskModel::ClassifyPlain(from, to) => CopyRequestModel::IsFile(from),
        TaskModel::Transfer(from, to) => CopyRequestModel::CopyFile(from, to),
    }
}

/// One task for each entry, the first entry last.
pub open spec fn entry_tasks(from: PathModel, to: PathModel, names: Seq<NameModel>) -> Seq<
    TaskModel,
> {
    Seq::new(
        names.len(),
        |i: int|
            TaskModel::Classify(
                entry(from, names[names.len() - 1 - i]),
                entry(to, names[names.len() - 1 - i]),
            ),
    )
}

/// What a task leaves to be done once it is replied to; nothing where that is a failure.
pub open spec fn followed_by(task: TaskModel, reply: CopyReplyModel) -> Option<Seq<TaskModel>> {
    match task {
        TaskModel::Create(from, to) => if is_yes(reply) {
            Some(seq![TaskModel::List(from, to)])
        } else {
            None
        },
        TaskModel::List(from, to) => match names_in(reply) {
            Some(names) => Some(entry_tasks(from, to, names)),
            None => None,
        },
        TaskModel::Classify(from, to) => if is_yes(reply) {
            Some(seq![TaskModel::Create(from, to)])
        } else {
            Some(seq![TaskModel::ClassifyPlain(from, to)])
        },
        TaskModel::ClassifyPlain(from, to) => if is_yes(reply) {
            Some(seq![TaskModel::Transfer(from, to)])
        } else {
            Some(Seq::empty())
        },
        TaskModel::Transfer(from, to) => if is_yes(reply) {
            Some(Seq::empty())
        } else {
            None
        },
    }
}

impl WalkModel {
    /// The walk that starts with one directory.
    pub open spec fn start(from: PathModel, to: PathModel) -> WalkModel {
        WalkModel { pending: seq![TaskModel::Create(from, to)], failed: false }
    }

    /// What to ask for next. A walk that has failed asks for nothing more.
    pub open spec fn request(self) -> Option<CopyRequestModel> {
        if self.failed || self.pending.len() == 0 {
            None
        } else {
            Some(request_of(self.pending.last()))
        }
    }

    /// The walk after the reply to its request.
    pub open spec fn after(self, reply: CopyReplyModel) -> WalkModel {
        if self.failed || self.pending.len() == 0 {
            self
        } else {
            match followed_by(self.pending.last(), reply) {
                Some(tasks) => WalkModel {
                    pending: self.pending.drop_last() + tasks,
                    failed: false,
                },
                None => WalkModel { pending: self.pending, failed: true },
            }
        }
    }

    /// Whether everything was copied, once that is settled.
    pub open spec fn outcome(self) -> Option<bool> {
        if self.failed {
            Some(false)
        } else if self.pending.len() == 0 {
            Some(true)
        } else {
            None
        }
    }
}

/// Starts to copy the directory `source` to `destination`.
pub fn copy_directory(source: &HostPath, destination: &HostPath) -> (walk: CopyWalk)
    ensures
        walk@ == WalkModel::start(source@, destination@),
{
    let mut pending: Vec<Task> = Vec::new();
    pending.push(Task::Create(source.clone(), destination.clone()));
    let walk = CopyWalk { pending, failed: false };
    assert(walk@.pending =~= WalkModel::start(source@, destination@).pending);
    walk
}

impl CopyReply {
    fn is_yes(&self) -> (yes: bool)
        ensures
            yes == is_yes(self@),
    {
        match self {
            CopyReply::Flag(flag) => *flag,
            CopyReply::Names(_) => false,
        }
    }
}

impl CopyWalk {
    /// What to ask for next.
    pub fn request(&self) -> (request: Option<CopyRequest>)
        ensures
            request.deep_view() == self@.request(),
    {
        let len = self.pending.len();
        if self.failed || len == 0 {
            return None;
        }
        Some(
            match &self.pending[len - 1] {
                Task::Create(from, to) => CopyRequest::CreateDir(to.clone()),
                Task::List(from, to) => CopyRequest::ReadDir(from.clone()),
                Task::Classify(from, to) => CopyRequest::IsDir(from.clone()),
                Task::ClassifyPlain(from, to) => CopyRequest::IsFile(from.clone()),
                Task::Transfer(from, to) => CopyRequest::CopyFile(from.clone(), to.clone()),
            },
        )
    }

    /// Goes on with the reply to the request.
    pub fn advance(&mut self, reply: &CopyReply)
        ensures
            final(self)@ == old(self)@.after(reply@),
    {
        if self.failed {
            return ;
        }
        let ghost before = self.pending.deep_view();
        let task = match self.pending.pop() {
            Some(task) => task,
            None => return ,
        };
        assert(task@ == before.last());
        assert(self.pending.deep_view() =~= before.drop_last());
        match task {
            Task::Create(from, to) => if reply.is_yes() {
                self.pending.push(Task::List(from, to));
            } else {
                self.pending.push(Task::Create(from, to));
                self.failed = true;
            },
            Task::List(from, to) => match reply {
                CopyReply::Names(Some(names)) => {
                    self.push_entries(&from, &to, names);
                },
                _ => {
                    self.pending.push(Task::List(from, to));
                    self.failed = true;
                },
            },
            Task::Classify(from, to) => if reply.is_yes() {
                self.pending.push(Task::Create(from, to));
            } else {
                self.pending.push(Task::ClassifyPlain(from, to));
            },
            Task::ClassifyPlain(from, to) => if reply.is_yes() {
                self.pending.push(Task::Transfer(from, to));
            },
            Task::Transfer(from, to) => if !reply.is_yes() {
                self.pending.push(Task::Transfer(from, to));
                self.failed = true;
            },
        }
        assert(self@.pending =~= old(self)@.after(reply@).pending);
    }

    fn push_entries(&mut self, from: &HostPath, to: &HostPath, names: &Vec<Name>)
        ensures
            final(self)@.failed == old(self)@.failed,
            final(self)@.pending == old(self)@.pending + entry_tasks(
                from@,
                to@,
                names.deep_view(),
            ),
    {
        let ghost all = names.deep_view();
        let ghost tasks = entry_tasks(from@, to@, all);
        let mut i: usize = names.len();
        assert(self@.pending =~= old(self)@.pending + tasks.take(0));
        while i > 0
            invariant
                i <= names@.len(),
                all == names.deep_view(),
                tasks == entry_tasks(from@, to@, all),
                self@.failed == old(self)@.failed,
                self@.pending == old(self)@.pending + tasks.take(all.len() - i),
            decreases i,
        {
            i = i - 1;
            let ghost before = self@.pending;
            self.pending.push(Task::Classify(from.entry(&names[i]), to.entry(&names[i])));
            proof {
                let done = all.len() - i - 1;
                assert(all[i as int] == names[i as int]@);
                assert(tasks[done] == TaskModel::Classify(
                    entry(from@, all[i as int]),
                    entry(to@, all[i as int]),
                ));
                assert(self@.pending =~= before.push(tasks[done]));
                assert(tasks.take(done + 1) =~= tasks.take(done).push(tasks[done]));
                assert(self@.pending =~= old(self)@.pending + tasks.take(done + 1));
            }
        }
        assert(tasks.take(all.len() as int) =~= tasks);
    }

    /// Whether everything was copied, once that is settled.
    pub fn outcome(&self) -> (outcome: Option<bool>)
        ensures
            outcome == self@.outcome(),
    {
        if self.failed {
            Some(false)
        } else if self.pending.len() == 0 {
            Some(true)
        } else {
            None
        }
    }
}

/// The pair of paths that a task is about.
pub open spec fn paths_of(task: TaskModel) -> (PathModel, PathModel) {
    match task {
        TaskModel::Create(from, to) => (from, to),
        TaskModel::List(from, to) => (from, to),
        TaskModel::Classify(from, to) => (from, to),
        TaskModel::ClassifyPlain(from, to) => (from, to),
        TaskModel::Transfer(from, to) => (from, to),
    }
}

/// Whether `from` lies in `source` where `to` lies in `destination`.
pub open spec fn mirrors(
    source: PathModel,
    destination: PathModel,
    from: PathModel,
    to: PathModel,
) -> bool {
    &&& is_within(from, source)
    &&& is_within(to, destination)
    &&& from.skip(source.len() as int) == to.skip(destination.len() as int)
}

/// Whether everything that the walk has still to do is about a place in `source` and the same
/// place in `destination`.
pub open spec fn is_walk_of(walk: WalkModel, source: PathModel, destination: PathModel) -> bool {
    forall|i: int|
        0 <= i < walk.pending.len() ==> mirrors(
            source,
            destination,
            paths_of(#[trigger] walk.pending[i]).0,
            paths_of(walk.pending[i]).1,
        )
}

/// Whether the request reads nothing outside `source`, writes nothing outside `destination` and
/// puts what it copies where it was.
pub open spec fn stays_within(
    request: CopyRequestModel,
    source: PathModel,
    destination: PathModel,
) -> bool {
    match request {
        CopyRequestModel::CreateDir(to) => is_within(to, destination),
        CopyRequestModel::ReadDir(from) => is_within(from, source),
        CopyRequestModel::IsDir(from) => is_within(from, source),
        CopyRequestModel::IsFile(from) => is_within(from, source),
        CopyRequestModel::CopyFile(from, to) => mirrors(source, destination, from, to),
    }
}

proof fn entries_mirror(
    source: PathModel,
    destination: PathModel,
    from: PathModel,
    to: PathModel,
    name: NameModel,
)
    requires
        mirrors(source, destination, from, to),
    ensures
        mirrors(source, destination, entry(from, name), entry(to, name)),
{
    assert(source =~= entry(from, name).subrange(0, source.len() as int));
    assert(destination =~= entry(to, name).subrange(0, destination.len() as int));
    assert(entry(from, name).skip(source.len() as int) =~= from.skip(source.len() as int).push(
        entry(from, name).last(),
    ));
    assert(entry(to, name).skip(destination.len() as int) =~= to.skip(
        destination.len() as int,
    ).push(entry(to, name).last()));
}

/// A walk never leaves the two directories that it was started with: whatever the replies, each
/// request reads in the one, writes in the other and copies to the place that corresponds.
pub proof fn a_walk_stays_in_its_directories(
    walk: WalkModel,
    source: PathModel,
    destination: PathModel,
    reply: CopyReplyModel,
)
    ensures
        is_walk_of(WalkModel::start(source, destination), source, destination),
        is_walk_of(walk, source, destination) ==> is_walk_of(
            walk.after(reply),
            source,
            destination,
        ),
        is_walk_of(walk, source, destination) ==> (walk.request() matches Some(request)
            ==> stays_within(request, source, destination)),
{
    assert(source =~= source.subrange(0, source.len() as int));
    assert(destination =~= destination.subrange(0, destination.len() as int));
    assert(source.skip(source.len() as int) =~= destination.skip(destination.len() as int));
    if is_walk_of(walk, source, destination) && walk.request() is Some {
        let next = walk.after(reply);
        let task = walk.pending.last();
        assert(task == walk.pending[walk.pending.len() - 1]);
        let (from, to) = paths_of(task);
        assert forall|i: int| 0 <= i < next.pending.len() implies mirrors(
            source,
            destination,
            paths_of(#[trigger] next.pending[i]).0,
            paths_of(next.pending[i]).1,
        ) by {
            if i < walk.pending.len() - 1 {
                assert(next.pending[i] == walk.pending[i]);
            } else if let (TaskModel::List(_, _), Some(names)) = (task, names_in(reply)) {
                let k = i - (walk.pending.len() - 1);
                assert(next.pending[i] == entry_tasks(from, to, names)[k]);
                entries_mirror(source, destination, from, to, names[names.len() - 1 - k]);
            }
        }
    }
}

/// A walk fails exactly where a directory cannot be made or listed or a file cannot be copied,
/// and then asks for nothing more.
pub proof fn a_walk_fails_only_where_it_is_refused(walk: WalkModel, reply: CopyReplyModel)
    ensures
        walk.request() matches Some(request) ==> walk.after(reply).failed == match request {
            CopyRequestModel::CreateDir(_) => !is_yes(reply),
            CopyRequestModel::ReadDir(_) => names_in(reply) is None,
            CopyRequestModel::IsDir(_) => false,
            CopyRequestModel::IsFile(_) => false,
            CopyRequestModel::CopyFile(_, _) => !is_yes(reply),
        },
        walk.failed ==> walk.request() is None && walk.outcome() == Some(false) && walk.after(reply)
            == walk,
{
}

/// A file, a directory with named entries, or anything else.
pub enum TreeModel {
    File,
    Directory(Seq<(NameModel, TreeModel)>),
    Other,
}

/// The names of the entries.
pub open spec fn names_of(items: Seq<(NameModel, TreeModel)>) -> Seq<NameModel> {
    items.map_values(|item: (NameModel, TreeModel)| item.0)
}

/// Whether the replies describe the tree at a path.
pub open spec fn describes(
    respond: spec_fn(CopyRequestModel) -> CopyReplyModel,
    from: PathModel,
    tree: TreeModel,
) -> bool
    decreases tree,
{
    match tree {
        TreeModel::File => {
            &&& !is_yes(respond(CopyRequestModel::IsDir(from)))
            &&& is_yes(respond(CopyRequestModel::IsFile(from)))
        },
        TreeModel::Directory(items) => {
            &&& is_yes(respond(CopyRequestModel::IsDir(from)))
            &&& names_in(respond(CopyRequestModel::ReadDir(from))) == Some(names_of(items))
            &&& describes_entries(respond, from, items)
        },
        TreeModel::Other => {
            &&& !is_yes(respond(CopyRequestModel::IsDir(from)))
            &&& !is_yes(respond(CopyRequestModel::IsFile(from)))
        },
    }
}

/// Whether the replies describe each of the entries of the directory at a path.
pub open spec fn describes_entries(
    respond: spec_fn(CopyRequestModel) -> CopyReplyModel,
    from: PathModel,
    items: Seq<(NameModel, TreeModel)>,
) -> bool
    decreases items,
{
    items.len() > 0 ==> {
        &&& describes(respond, entry(from, items[0].0), items[0].1)
        &&& describes_entries(respond, from, items.drop_first())
    }
}

/// Whether everything that a walk wants written can be.
pub open spec fn is_writable(respond: spec_fn(CopyRequestModel) -> CopyReplyModel) -> bool {
    forall|request: CopyRequestModel|
        request is CreateDir || request is CopyFile ==> is_yes(#[trigger] respond(request))
}

/// What has to be written to copy a tree, in the order of the entries: each directory is made
/// before anything is put into it, and each file is copied to the place that corresponds.
pub open spec fn writes_of(from: PathModel, to: PathModel, tree: TreeModel) -> Seq<CopyRequestModel>
    decreases tree,
{
    match tree {
        TreeModel::File => seq![CopyRequestModel::CopyFile(from, to)],
        TreeModel::Directory(items) => seq![CopyRequestModel::CreateDir(to)] + writes_of_entries(
            from,
            to,
            items,
        ),
        TreeModel::Other => Seq::empty(),
    }
}

pub open spec fn writes_of_entries(
    from: PathModel,
    to: PathModel,
    items: Seq<(NameModel, TreeModel)>,
) -> Seq<CopyRequestModel>
    decreases items,
{
    if items.len() == 0 {
        Seq::empty()
    } else {
        writes_of(entry(from, items[0].0), entry(to, items[0].0), items[0].1) + writes_of_entries(
            from,
            to,
            items.drop_first(),
        )
    }
}

/// The request, if it writes something.
pub open spec fn write_in(request: CopyRequestModel) -> Seq<CopyRequestModel> {
    if request is CreateDir || request is CopyFile {
        seq![request]
    } else {
        Seq::empty()
    }
}

/// The walk after `n` requests, each replied to as given, and what was asked to be written by then.
pub open spec fn walked(
    walk: WalkModel,
    respond: spec_fn(CopyRequestModel) -> CopyReplyModel,
    n: nat,
) -> (WalkModel, Seq<CopyRequestModel>)
    decreases n,
{
    if n == 0 {
        (walk, Seq::empty())
    } else {
        match walk.request() {
            Some(request) => {
                let (end, writes) = walked(walk.after(respond(request)), respond, (n - 1) as nat);
                (end, write_in(request) + writes)
            },
            None => (walk, Seq::empty()),
        }
    }
}

/// How many requests it takes to copy a tree whose kind is not known yet.
pub open spec fn requests_for(tree: TreeModel) -> nat
    decreases tree,
{
    match tree {
        TreeModel::File => 3,
        TreeModel::Directory(items) => 3 + requests_for_entries(items),
        TreeModel::Other => 2,
    }
}

pub open spec fn requests_for_entries(items: Seq<(NameModel, TreeModel)>) -> nat
    decreases items,
{
    if items.len() == 0 {
        0
    } else {
        requests_for(items[0].1) + requests_for_entries(items.drop_first())
    }
}

proof fn walked_in_two(
    walk: WalkModel,
    respond: spec_fn(CopyRequestModel) -> CopyReplyModel,
    m: nat,
    n: nat,
)
    ensures
        walked(walk, respond, m + n).0 == walked(walked(walk, respond, m).0, respond, n).0,
        walked(walk, respond, m + n).1 == walked(walk, respond, m).1 + walked(
            walked(walk, respond, m).0,
            respond,
            n,
        ).1,
    decreases m,
{
    if m == 0 {
        assert(walked(walk, respond, n).1 =~= Seq::empty() + walked(walk, respond, n).1);
    } else {
        match walk.request() {
            Some(request) => {
                let next = walk.after(respond(request));
                walked_in_two(next, respond, (m - 1) as nat, n);
                let first = walked(next, respond, (m - 1) as nat);
                let rest = walked(first.0, respond, n);
                assert(walked(next, respond, (m - 1 + n) as nat).1 == first.1 + rest.1);
                assert(write_in(request) + (first.1 + rest.1) =~= (write_in(request) + first.1)
                    + rest.1);
            },
            None => {
                assert(walked(walk, respond, n) == (walk, Seq::<CopyRequestModel>::empty()));
                assert(Seq::<CopyRequestModel>::empty() =~= Seq::empty() + Seq::empty());
            },
        }
    }
}

spec fn waiting(pending: Seq<TaskModel>) -> WalkModel {
    WalkModel { pending, failed: false }
}

/// Whether the walk, after `n` requests, has failed where something cannot be written, or else has
/// come to `rest` and asked for exactly these writes.
spec fn fails_or_writes(
    walk: WalkModel,
    respond: spec_fn(CopyRequestModel) -> CopyReplyModel,
    n: nat,
    rest: Seq<TaskModel>,
    writes: Seq<CopyRequestModel>,
) -> bool {
    let end = walked(walk, respond, n);
    ||| end.0.failed && !is_writable(respond)
    ||| end == (waiting(rest), writes)
}

proof fn one_part_after_the_other(
    walk: WalkModel,
    respond: spec_fn(CopyRequestModel) -> CopyReplyModel,
    m: nat,
    middle: Seq<TaskModel>,
    first: Seq<CopyRequestModel>,
    n: nat,
    rest: Seq<TaskModel>,
    second: Seq<CopyRequestModel>,
)
    requires
        fails_or_writes(walk, respond, m, middle, first),
        fails_or_writes(waiting(middle), respond, n, rest, second),
    ensures
        fails_or_writes(walk, respond, m + n, rest, first + second),
{
    walked_in_two(walk, respond, m, n);
}

proof fn one_request(
    rest: Seq<TaskModel>,
    task: TaskModel,
    respond: spec_fn(CopyRequestModel) -> CopyReplyModel,
    follows: Seq<TaskModel>,
)
    requires
        match followed_by(task, respond(request_of(task))) {
            Some(tasks) => tasks == follows,
            None => !is_yes(respond(request_of(task))) && write_in(request_of(task)).len() > 0,
        },
    ensures
        fails_or_writes(
            waiting(rest.push(task)),
            respond,
            1,
            rest + follows,
            write_in(request_of(task)),
        ),
{
    let walk = waiting(rest.push(task));
    let request = request_of(task);
    assert(rest.push(task).drop_last() =~= rest);
    let next = walk.after(respond(request));
    assert(walked(next, respond, 0) == (next, Seq::<CopyRequestModel>::empty()));
    assert(write_in(request) + Seq::<CopyRequestModel>::empty() =~= write_in(request));
    if followed_by(task, respond(request)) is Some {
        assert(next == waiting(rest + follows));
    }
}

proof fn an_entry_is_copied(
    rest: Seq<TaskModel>,
    from: PathModel,
    to: PathModel,
    tree: TreeModel,
    respond: spec_fn(CopyRequestModel) -> CopyReplyModel,
)
    requires
        describes(respond, from, tree),
    ensures
        fails_or_writes(
            waiting(rest.push(TaskModel::Classify(from, to))),
            respond,
            requests_for(tree),
            rest,
            writes_of(from, to, tree),
        ),
    decreases tree, 0nat,
{
    let start = waiting(rest.push(TaskModel::Classify(from, to)));
    let none = Seq::<CopyRequestModel>::empty();
    let writes = writes_of(from, to, tree);
    match tree {
        TreeModel::Directory(items) => {
            let made = seq![TaskModel::Create(from, to)];
            let middle = rest.push(TaskModel::Create(from, to));
            one_request(rest, TaskModel::Classify(from, to), respond, made);
            assert(rest + made =~= middle);
            a_directory_is_copied(rest, from, to, items, respond);
            let left = 2 + requests_for_entries(items);
            one_part_after_the_other(start, respond, 1, middle, none, left, rest, writes);
        },
        _ => {
            let plain = seq![TaskModel::ClassifyPlain(from, to)];
            let middle = rest.push(TaskModel::ClassifyPlain(from, to));
            one_request(rest, TaskModel::Classify(from, to), respond, plain);
            assert(rest + plain =~= middle);
            assert(rest + Seq::<TaskModel>::empty() =~= rest);
            if tree is File {
                let transfer = seq![TaskModel::Transfer(from, to)];
                let last = rest.push(TaskModel::Transfer(from, to));
                one_request(rest, TaskModel::ClassifyPlain(from, to), respond, transfer);
                assert(rest + transfer =~= last);
                one_request(rest, TaskModel::Transfer(from, to), respond, Seq::empty());
                one_part_after_the_other(start, respond, 1, middle, none, 1, last, none);
                assert(none + none =~= none);
                one_part_after_the_other(start, respond, 2, last, none, 1, rest, writes);
            } else {
                one_request(rest, TaskModel::ClassifyPlain(from, to), respond, Seq::empty());
                one_part_after_the_other(start, respond, 1, middle, none, 1, rest, writes);
            }
        },
    }
    assert(none + writes =~= writes);
}

proof fn a_directory_is_copied(
    rest: Seq<TaskModel>,
    from: PathModel,
    to: PathModel,
    items: Seq<(NameModel, TreeModel)>,
    respond: spec_fn(CopyRequestModel) -> CopyReplyModel,
)
    requires
        names_in(respond(CopyRequestModel::ReadDir(from))) == Some(names_of(items)),
        describes_entries(respond, from, items),
    ensures
        fails_or_writes(
            waiting(rest.push(TaskModel::Create(from, to))),
            respond,
            2 + requests_for_entries(items),
            rest,
            writes_of(from, to, TreeModel::Directory(items)),
        ),
    decreases items, 1nat,
{
    let start = waiting(rest.push(TaskModel::Create(from, to)));
    let list = seq![TaskModel::List(from, to)];
    let middle = rest.push(TaskModel::List(from, to));
    let tasks = entry_tasks(from, to, names_of(items));
    let made = seq![CopyRequestModel::CreateDir(to)];
    let none = Seq::<CopyRequestModel>::empty();
    let writes = writes_of_entries(from, to, items);
    one_request(rest, TaskModel::Create(from, to), respond, list);
    assert(rest + list =~= middle);
    one_request(rest, TaskModel::List(from, to), respond, tasks);
    entries_are_copied(rest, from, to, items, respond);
    one_part_after_the_other(start, respond, 1, middle, made, 1, rest + tasks, none);
    assert(made + none =~= made);
    let left = requests_for_entries(items);
    one_part_after_the_other(start, respond, 2, rest + tasks, made, left, rest, writes);
}

proof fn entries_are_copied(
    rest: Seq<TaskModel>,
    from: PathModel,
    to: PathModel,
    items: Seq<(NameModel, TreeModel)>,
    respond: spec_fn(CopyRequestModel) -> CopyReplyModel,
)
    requires
        describes_entries(respond, from, items),
    ensures
        fails_or_writes(
            waiting(rest + entry_tasks(from, to, names_of(items))),
            respond,
            requests_for_entries(items),
            rest,
            writes_of_entries(from, to, items),
        ),
    decreases items, 0nat,
{
    let tasks = entry_tasks(from, to, names_of(items));
    if items.len() == 0 {
        assert(rest + tasks =~= rest);
    } else {
        let (name, tree) = items[0];
        let others = items.drop_first();
        let left = entry_tasks(from, to, names_of(others));
        assert(names_of(others) =~= names_of(items).drop_first());
        assert(rest + tasks =~= (rest + left).push(
            TaskModel::Classify(entry(from, name), entry(to, name)),
        ));
        an_entry_is_copied(rest + left, entry(from, name), entry(to, name), tree, respond);
        entries_are_copied(rest, from, to, others, respond);
        one_part_after_the_other(
            waiting(rest + tasks),
            respond,
            requests_for(tree),
            rest + left,
            writes_of(entry(from, name), entry(to, name), tree),
            requests_for_entries(others),
            rest,
            writes_of_entries(from, to, others),
        );
    }
}

proof fn every_write_succeeded(
    walk: WalkModel,
    respond: spec_fn(CopyRequestModel) -> CopyReplyModel,
    n: nat,
)
    requires
        !walked(walk, respond, n).0.failed,
    ensures
        forall|i: int|
            0 <= i < walked(walk, respond, n).1.len() ==> is_yes(
                respond(#[trigger] walked(walk, respond, n).1[i]),
            ),
    decreases n,
{
    if n > 0 {
        if let Some(request) = walk.request() {
            let next = walk.after(respond(request));
            if next.failed {
                assert(walked(next, respond, (n - 1) as nat).0 == next);
            }
            every_write_succeeded(next, respond, (n - 1) as nat);
            let later = walked(next, respond, (n - 1) as nat).1;
            let first = write_in(request);
            assert forall|i: int| 0 <= i < (first + later).len() implies is_yes(
                respond(#[trigger] (first + later)[i]),
            ) by {
                if i >= first.len() {
                    assert(is_yes(respond(later[i - first.len()])));
                }
            }
        }
    }
}

/// Whatever can be written and whatever cannot: a walk of a directory is settled after finitely
/// many requests. If it ends with success, every directory, at any depth, was made and every file
/// was copied to the place that corresponds, each once, in order and with success. Where everything
/// can be written, it does end with success.
pub proof fn a_walk_copies_every_file(
    source: PathModel,
    destination: PathModel,
    items: Seq<(NameModel, TreeModel)>,
    respond: spec_fn(CopyRequestModel) -> CopyReplyModel,
    n: nat,
)
    requires
        describes(respond, source, TreeModel::Directory(items)),
    ensures
        ({
            let (walk, writes) = walked(WalkModel::start(source, destination), respond, n);
            &&& walk.outcome() == Some(true) ==> writes == writes_of(
                source,
                destination,
                TreeModel::Directory(items),
            ) && forall|i: int|
                0 <= i < writes.len() ==> is_yes(respond(#[trigger] writes[i]))
            &&& n >= 2 + requests_for_entries(items) ==> walk.outcome() is Some
            &&& n >= 2 + requests_for_entries(items) && is_writable(respond) ==> walk.outcome()
                == Some(true)
        }),
{
    let start = WalkModel::start(source, destination);
    let enough = 2 + requests_for_entries(items);
    let none = Seq::<CopyRequestModel>::empty();
    assert(start.pending =~= Seq::empty().push(TaskModel::Create(source, destination)));
    a_directory_is_copied(Seq::empty(), source, destination, items, respond);
    let (walk, writes) = walked(start, respond, n);
    if !walk.failed {
        every_write_succeeded(start, respond, n);
    }
    if n >= enough {
        let settled = walked(start, respond, enough).0;
        walked_in_two(start, respond, enough, (n - enough) as nat);
        assert(walked(settled, respond, (n - enough) as nat) == (settled, none));
        assert(writes =~= walked(start, respond, enough).1);
    } else if walk.outcome() == Some(true) {
        walked_in_two(start, respond, n, (enough - n) as nat);
        assert(walked(walk, respond, (enough - n) as nat) == (walk, none));
        assert(writes =~= walked(start, respond, enough).1);
    }
}

/// What describes a directory describes each of its entries.
pub proof fn an_entry_is_described(
    respond: spec_fn(CopyRequestModel) -> CopyReplyModel,
    from: PathModel,
    items: Seq<(NameModel, TreeModel)>,
    i: int,
)
    requires
        describes_entries(respond, from, items),
        0 <= i < items.len(),
    ensures
        describes(respond, entry(from, items[i].0), items[i].1),
    decreases i,
{
    if i > 0 {
        an_entry_is_described(respond, from, items.drop_first(), i - 1);
        assert(items.drop_first()[i - 1] == items[i]);
    }
}

/// What has to be written for an entry has to be written for its directory.
pub proof fn an_entry_is_written(
    from: PathModel,
    to: PathModel,
    items: Seq<(NameModel, TreeModel)>,
    i: int,
    write: CopyRequestModel,
)
    requires
        0 <= i < items.len(),
        writes_of(entry(from, items[i].0), entry(to, items[i].0), items[i].1).contains(write),
    ensures
        writes_of_entries(from, to, items).contains(write),
        writes_of(from, to, TreeModel::Directory(items)).contains(write),
    decreases i,
{
    let first = writes_of(entry(from, items[0].0), entry(to, items[0].0), items[0].1);
    let rest = writes_of_entries(from, to, items.drop_first());
    let all = writes_of_entries(from, to, items);
    assert(all == first + rest);
    if i == 0 {
        let k = choose|k: int| 0 <= k < first.len() && first[k] == write;
        assert(all[k] == write);
    } else {
        assert(items.drop_first()[i - 1] == items[i]);
        an_entry_is_written(from, to, items.drop_first(), i - 1, write);
        let k = choose|k: int| 0 <= k < rest.len() && rest[k] == write;
        assert(all[first.len() + k] == write);
    }
    let k = choose|k: int| 0 <= k < all.len() && all[k] == write;
    assert(writes_of(from, to, TreeModel::Directory(items))[k + 1] == write);
}

/// Replies are taken as they were given, and a walk has an outcome exactly once it asks for nothing
/// more: failure if it has failed, else success.
pub proof fn a_walk_is_settled_when_it_asks_no_more(
    walk: WalkModel,
    reply: CopyReplyModel,
    names: Seq<NameModel>,
)
    ensures
        is_yes(reply) <==> reply == CopyReplyModel::Flag(true),
        names_in(reply) == Some(names) <==> reply == CopyReplyModel::Names(Some(names)),
        walk.request() is None <==> walk.outcome() is Some,
        walk.outcome() matches Some(copied) ==> copied == !walk.failed,
{
}

} // verus!
