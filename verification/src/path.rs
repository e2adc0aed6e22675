//! Paths as sequences of components, and the names that those are made of.
use vstd::prelude::*;

verus! {

/// What a name stands for: its characters or, where it is not Unicode, its bytes.
pub enum NameModel {
    Text(Seq<char>),
    Raw(Seq<u8>),
}

/// What one component of a path stands for.
pub enum ComponentModel {
    Prefix(NameModel),
    RootDir,
    CurDir,
    ParentDir,
    Normal(NameModel),
}

/// A path, from its first component to its last.
pub type PathModel = Seq<ComponentModel>;

/// The name of a file or a directory.
#[derive(Debug)]
pub enum Name {
    /// A name that is Unicode.
    Text(String),
    /// The bytes of a name that is not Unicode, in the encoding of the host.
    Raw(Vec<u8>),
}

/// One component of a path.
#[derive(Debug)]
pub enum Component {
    /// The prefix of a Windows path, such as a drive.
    Prefix(Name),
    /// The root directory.
    RootDir,
    /// A leading `.`.
    CurDir,
    /// A `..`.
    ParentDir,
    /// The name of a file or a directory.
    Normal(Name),
}

/// A path of the host, split into its components.
#[derive(Debug)]
pub struct HostPath {
    pub components: Vec<Component>,
}

impl View for Name {
    type V = NameModel;

    open spec fn view(&self) -> NameModel {
        match self {
            Name::Text(text) => NameModel::Text(text@),
            Name::Raw(bytes) => NameModel::Raw(bytes@),
        }
    }
}

impl DeepView for Name {
    type V = NameModel;

    open spec fn deep_view(&self) -> NameModel {
        self@
    }
}

impl View for Component {
    type V = ComponentModel;

    open spec fn view(&self) -> ComponentModel {
        match self {
            Component::Prefix(name) => ComponentModel::Prefix(name@),
            Component::RootDir => ComponentModel::RootDir,
            Component::CurDir => ComponentModel::CurDir,
            Component::ParentDir => ComponentModel::ParentDir,
            Component::Normal(name) => ComponentModel::Normal(name@),
        }
    }
}

impl DeepView for Component {
    type V = ComponentModel;

    open spec fn deep_view(&self) -> ComponentModel {
        self@
    }
}

impl View for HostPath {
    type V = PathModel;

    open spec fn view(&self) -> PathModel {
        self.components.deep_view()
    }
}

impl DeepView for HostPath {
    type V = PathModel;

    open spec fn deep_view(&self) -> PathModel {
        self@
    }
}

/// A component that `..` would take away again: anything but a prefix or the root.
pub open spec fn is_removable(component: ComponentModel) -> bool {
    !(component is Prefix) && !(component is RootDir)
}

/// The path without its last component; nothing where that is the root, a prefix or missing.
pub open spec fn parent(path: PathModel) -> Option<PathModel> {
    if path.len() > 0 && is_removable(path.last()) {
        Some(path.drop_last())
    } else {
        None
    }
}

/// The name that the path ends in, if it ends in one.
pub open spec fn file_name(path: PathModel) -> Option<NameModel> {
    if path.len() > 0 {
        match path.last() {
            ComponentModel::Normal(name) => Some(name),
            _ => None,
        }
    } else {
        None
    }
}

/// The entry of that name in the directory `path`.
pub open spec fn entry(path: PathModel, name: NameModel) -> PathModel {
    path.push(ComponentModel::Normal(name))
}

/// The entry of that Unicode name in the directory `path`.
pub open spec fn child(path: PathModel, name: Seq<char>) -> PathModel {
    entry(path, NameModel::Text(name))
}

/// Whether the path ends in exactly that Unicode name.
pub open spec fn is_named(path: PathModel, name: Seq<char>) -> bool {
    file_name(path) == Some(NameModel::Text(name))
}

/// Whether `path` is `directory` or lies somewhere below it.
pub open spec fn is_within(path: PathModel, directory: PathModel) -> bool {
    directory.is_prefix_of(path)
}

/// Whether going from a path to its parent, any number of times, leads from `path` to `ancestor`.
pub open spec fn is_ancestor(ancestor: PathModel, path: PathModel) -> bool {
    &&& ancestor.is_prefix_of(path)
    &&& forall|i: int| ancestor.len() <= i < path.len() ==> is_removable(#[trigger] path[i])
}

/// The first of `path`, its parent, the parent of that, and so on, for which `holds` is true.
pub open spec fn nearest(path: PathModel, holds: spec_fn(PathModel) -> bool) -> Option<PathModel>
    decreases path.len(),
{
    if holds(path) {
        Some(path)
    } else {
        match parent(path) {
            Some(up) => nearest(up, holds),
            None => None,
        }
    }
}

/// What `nearest` finds is an ancestor for which `holds` is true, no ancestor further down is
/// one, and it finds nothing only where there is none.
pub proof fn nearest_is_the_closest_ancestor(path: PathModel, holds: spec_fn(PathModel) -> bool)
    ensures
        match nearest(path, holds) {
            Some(found) => {
                &&& is_ancestor(found, path)
                &&& holds(found)
                &&& forall|other: PathModel|
                    #![trigger is_ancestor(other, path)]
                    is_ancestor(other, path) && holds(other) ==> other.len() <= found.len()
            },
            None => forall|other: PathModel|
                #![trigger is_ancestor(other, path)]
                is_ancestor(other, path) ==> !holds(other),
        },
    decreases path.len(),
{
    if !holds(path) {
        assert forall|other: PathModel|
            #![trigger is_ancestor(other, path)]
            is_ancestor(other, path) && other != path implies parent(path) is Some && is_ancestor(
            other,
            path.drop_last(),
        ) by {
            if other.len() == path.len() {
                assert(other =~= path);
            }
            assert(is_removable(path[path.len() - 1]));
            assert(other =~= path.drop_last().subrange(0, other.len() as int));
        }
        match parent(path) {
            Some(up) => {
                nearest_is_the_closest_ancestor(up, holds);
                match nearest(up, holds) {
                    Some(found) => {
                        assert(found =~= path.subrange(0, found.len() as int));
                        assert forall|i: int| found.len() <= i < path.len() implies is_removable(
                            #[trigger] path[i],
                        ) by {
                            if i < up.len() {
                                assert(is_removable(up[i]));
                            }
                        }
                        assert(is_ancestor(found, path));
                    },
                    None => {},
                }
            },
            None => {},
        }
    } else {
        assert(path =~= path.subrange(0, path.len() as int));
        assert(is_ancestor(path, path));
    }
}

/// Whether two texts are the same.
pub fn same_text(a: &str, b: &str) -> (same: bool)
    ensures
        same == (a@ == b@),
{
    a.to_owned() == b.to_owned()
}

fn same_bytes(a: &Vec<u8>, b: &Vec<u8>) -> (same: bool)
    ensures
        same == (a@ == b@),
{
    if a.len() != b.len() {
        return false;
    }
    let mut i: usize = 0;
    while i < a.len()
        invariant
            i <= a.len(),
            a.len() == b.len(),
            forall|j: int| 0 <= j < i ==> a@[j] == b@[j],
        decreases a.len() - i,
    {
        if a[i] != b[i] {
            return false;
        }
        i = i + 1;
    }
    assert(a@ =~= b@);
    true
}

impl Clone for Name {
    fn clone(&self) -> (copy: Self)
        ensures
            copy@ == self@,
    {
        match self {
            Name::Text(text) => Name::Text(text.clone()),
            Name::Raw(bytes) => Name::Raw(bytes.clone()),
        }
    }
}

impl Name {
    /// Whether both are the same name.
    pub fn same(&self, other: &Name) -> (same: bool)
        ensures
            same == (self@ == other@),
    {
        match (self, other) {
            (Name::Text(a), Name::Text(b)) => same_text(a.as_str(), b.as_str()),
            (Name::Raw(a), Name::Raw(b)) => same_bytes(a, b),
            _ => false,
        }
    }

    /// Whether the name is that Unicode text.
    pub fn is_text(&self, text: &str) -> (same: bool)
        ensures
            same == (self@ == NameModel::Text(text@)),
    {
        match self {
            Name::Text(own) => same_text(own.as_str(), text),
            Name::Raw(_) => false,
        }
    }
}

impl Clone for Component {
    fn clone(&self) -> (copy: Self)
        ensures
            copy@ == self@,
    {
        match self {
            Component::Prefix(name) => Component::Prefix(name.clone()),
            Component::RootDir => Component::RootDir,
            Component::CurDir => Component::CurDir,
            Component::ParentDir => Component::ParentDir,
            Component::Normal(name) => Component::Normal(name.clone()),
        }
    }
}

impl Component {
    /// Whether both are the same component.
    pub fn same(&self, other: &Component) -> (same: bool)
        ensures
            same == (self@ == other@),
    {
        match (self, other) {
            (Component::Prefix(a), Component::Prefix(b)) => a.same(b),
            (Component::RootDir, Component::RootDir) => true,
            (Component::CurDir, Component::CurDir) => true,
            (Component::ParentDir, Component::ParentDir) => true,
            (Component::Normal(a), Component::Normal(b)) => a.same(b),
            _ => false,
        }
    }

    fn is_removable(&self) -> (removable: bool)
        ensures
            removable == is_removable(self@),
    {
        match self {
            Component::Prefix(_) => false,
            Component::RootDir => false,
            _ => true,
        }
    }
}

impl Clone for HostPath {
    fn clone(&self) -> (copy: Self)
        ensures
            copy@ == self@,
    {
        self.upto(self.components.len())
    }
}

impl HostPath {
    /// The path without components.
    pub fn empty() -> (path: HostPath)
        ensures
            path@ == PathModel::empty(),
    {
        let path = HostPath { components: Vec::new() };
        assert(path@ =~= PathModel::empty());
        path
    }

    fn upto(&self, len: usize) -> (path: HostPath)
        requires
            len <= self@.len(),
        ensures
            path@ == self@.take(len as int),
    {
        let mut components: Vec<Component> = Vec::new();
        let mut i: usize = 0;
        while i < len
            invariant
                i <= len <= self@.len(),
                components.deep_view() == self@.take(i as int),
            decreases len - i,
        {
            let ghost before = components.deep_view();
            components.push(self.components[i].clone());
            assert(components.deep_view() =~= before.push(self@[i as int]));
            assert(self@.take(i + 1) =~= self@.take(i as int).push(self@[i as int]));
            i = i + 1;
        }
        HostPath { components }
    }

    /// Whether both are the same path, component by component.
    pub fn same(&self, other: &HostPath) -> (same: bool)
        ensures
            same == (self@ == other@),
    {
        if self.components.len() != other.components.len() {
            assert(self@.len() != other@.len());
            return false;
        }
        let mut i: usize = self.components.len();
        while i > 0
            invariant
                i <= self@.len(),
                self@.len() == other@.len(),
                forall|j: int| i <= j < self@.len() ==> self@[j] == other@[j],
            decreases i,
        {
            i = i - 1;
            if !self.components[i].same(&other.components[i]) {
                assert(self@[i as int] != other@[i as int]);
                return false;
            }
        }
        assert(self@ =~= other@);
        true
    }

    /// The path without its last component.
    pub fn parent(&self) -> (up: Option<HostPath>)
        ensures
            up.deep_view() == parent(self@),
    {
        let len = self.components.len();
        if len > 0 && self.components[len - 1].is_removable() {
            let up = self.upto(len - 1);
            assert(up@ =~= self@.drop_last());
            Some(up)
        } else {
            None
        }
    }

    /// The name that the path ends in.
    pub fn file_name(&self) -> (name: Option<&Name>)
        ensures
            name.deep_view() == file_name(self@),
    {
        let len = self.components.len();
        if len == 0 {
            return None;
        }
        match &self.components[len - 1] {
            Component::Normal(name) => Some(name),
            _ => None,
        }
    }

    /// Whether the path ends in exactly that name.
    pub fn is_named(&self, name: &str) -> (named: bool)
        ensures
            named == is_named(self@, name@),
    {
        match self.file_name() {
            Some(own) => own.is_text(name),
            None => false,
        }
    }

    /// The entry of that name in this directory.
    pub fn entry(&self, name: &Name) -> (path: HostPath)
        ensures
            path@ == entry(self@, name@),
    {
        let mut path = self.clone();
        path.components.push(Component::Normal(name.clone()));
        assert(path@ =~= entry(self@, name@));
        path
    }

    /// The entry of that Unicode name in this directory.
    pub fn child(&self, name: &str) -> (path: HostPath)
        ensures
            path@ == child(self@, name@),
    {
        self.entry(&Name::Text(name.to_owned()))
    }
}

/// Going to an entry and back leads nowhere: the parent of an entry is its directory, and its name
/// is the one that was asked for.
pub proof fn an_entry_knows_its_directory(path: PathModel, name: NameModel, text: Seq<char>)
    ensures
        parent(entry(path, name)) == Some(path),
        file_name(entry(path, name)) == Some(name),
        entry(path, name).len() == path.len() + 1,
        entry(path, name).last() == ComponentModel::Normal(name),
        entry(path, name).drop_last() == path,
        child(path, text) == entry(path, NameModel::Text(text)),
        is_named(child(path, text), text),
        forall|other: Seq<char>| #[trigger] is_named(child(path, text), other) ==> other == text,
{
    assert(entry(path, name).drop_last() =~= path);
}

/// A path has a parent unless it is empty or ends in the root or a prefix, and the parent is the
/// path without its last component. It has a name exactly where its last component is one.
pub proof fn a_path_is_its_parent_and_its_last_component(path: PathModel)
    ensures
        parent(path) is None <==> path.len() == 0 || path.last() is RootDir || path.last() is Prefix,
        parent(path) matches Some(up) ==> path == up.push(path.last()),
        file_name(path) is Some <==> path.len() > 0 && path.last() is Normal,
        file_name(path) matches Some(name) ==> path.last() == ComponentModel::Normal(name),
        forall|text: Seq<char>| #[trigger]
            is_named(path, text) <==> path.len() > 0 && path.last() == ComponentModel::Normal(
                NameModel::Text(text),
            ),
{
    if parent(path) is Some {
        assert(path =~= path.drop_last().push(path.last()));
    }
}

/// What lies within a directory is that directory followed by any components.
pub proof fn within_is_the_directory_and_more(path: PathModel, directory: PathModel)
    ensures
        is_within(path, directory) <==> exists|rest: PathModel| path == #[trigger] (directory + rest),
{
    if is_within(path, directory) {
        assert(path =~= directory + path.skip(directory.len() as int));
    }
    if exists|rest: PathModel| path == #[trigger] (directory + rest) {
        let rest = choose|rest: PathModel| path == #[trigger] (directory + rest);
        assert(directory =~= path.subrange(0, directory.len() as int));
    }
}

} // verus!
