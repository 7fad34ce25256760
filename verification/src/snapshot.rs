//! The state of the kernel as the tray shows it, and how it is read.

use vstd::prelude::*;

use crate::api::{is_built, Api};
use crate::command::{CallView, Method};
use crate::error::Error;
use crate::kernel::{
    group_views, groups, listed_groups_are_in_order, listed_groups_are_the_visible_ones,
    listed_names_ascend, lists_groups, report, rule_views, Group, GroupView, Mode, Proxy, Rule,
    RuleView,
};
use crate::text::{copy_opt, opt_text, text_less};

verus! {

/// Everything the tray knows about the running kernel.
pub struct Snapshot {
    pub version: String,
    pub mode: Mode,
    pub groups: Vec<Group>,
    pub rules: Vec<Rule>,
    /// Set while the controller cannot be reached, or after a failed command.
    pub error: Option<String>,
}

/// What a [`Snapshot`] says.
#[verifier::ext_equal]
pub struct SnapshotView {
    pub version: Seq<char>,
    pub mode: Mode,
    pub groups: Seq<GroupView>,
    pub rules: Seq<RuleView>,
    pub error: Option<Seq<char>>,
}

impl View for Snapshot {
    type V = SnapshotView;

    open spec fn view(&self) -> SnapshotView {
        SnapshotView {
            version: self.version@,
            mode: self.mode,
            groups: group_views(self.groups@),
            rules: rule_views(self.rules@),
            error: opt_text(self.error),
        }
    }
}

impl SnapshotView {
    /// What is known of a kernel that was never reached.
    pub open spec fn unknown() -> SnapshotView {
        SnapshotView {
            version: Seq::empty(),
            mode: Mode::Rule,
            groups: Seq::empty(),
            rules: Seq::empty(),
            error: None,
        }
    }

    /// The snapshot, with `failure` as its error where it has none of its own.
    pub open spec fn with_failure(self, failure: Option<Seq<char>>) -> SnapshotView {
        SnapshotView {
            error: match self.error {
                Some(error) => Some(error),
                None => failure,
            },
            ..self
        }
    }
}

impl Default for Snapshot {
    fn default() -> (snapshot: Self)
        ensures
            snapshot@ == SnapshotView::unknown(),
            snapshot.version@.len() == 0,
            snapshot.mode == Mode::Rule,
            snapshot.groups@.len() == 0,
            snapshot.rules@.len() == 0,
            snapshot.error is None,
    {
        let snapshot = Snapshot {
            version: String::new(),
            mode: Mode::default(),
            groups: Vec::new(),
            rules: Vec::new(),
            error: None,
        };
        assert(snapshot@ =~= SnapshotView::unknown());
        snapshot
    }
}

impl Clone for Snapshot {
    fn clone(&self) -> (copy: Self)
        ensures
            copy@ == self@,
    {
        Snapshot {
            version: self.version.clone(),
            mode: self.mode,
            groups: copy_groups(&self.groups),
            rules: copy_rules(&self.rules),
            error: copy_opt(&self.error),
        }
    }
}

fn copy_groups(groups: &Vec<Group>) -> (copy: Vec<Group>)
    ensures
        group_views(copy@) == group_views(groups@),
{
    let mut copy: Vec<Group> = Vec::new();
    let mut i: usize = 0;
    while i < groups.len()
        invariant
            i <= groups@.len(),
            copy@.len() == i,
            forall|j: int| 0 <= j < i ==> (#[trigger] copy@[j])@ == groups@[j]@,
        decreases groups@.len() - i,
    {
        copy.push(groups[i].clone());
        i += 1;
    }
    assert(group_views(copy@) =~= group_views(groups@));
    copy
}

fn copy_rules(rules: &Vec<Rule>) -> (copy: Vec<Rule>)
    ensures
        rule_views(copy@) == rule_views(rules@),
{
    let mut copy: Vec<Rule> = Vec::new();
    let mut i: usize = 0;
    while i < rules.len()
        invariant
            i <= rules@.len(),
            copy@.len() == i,
            forall|j: int| 0 <= j < i ==> (#[trigger] copy@[j])@ == rules@[j]@,
        decreases rules@.len() - i,
    {
        copy.push(rules[i].clone());
        i += 1;
    }
    assert(rule_views(copy@) =~= rule_views(rules@));
    copy
}

impl Snapshot {
    /// The kernel state as it was read, or the failure described in [`Snapshot::error`] when it
    /// could not be reached.
    pub fn fetch(result: Result<Snapshot, Error>) -> (snapshot: Self)
        ensures
            (match result {
                Ok(read) => snapshot == read,
                Err(error) => snapshot@ == SnapshotView::unknown().with_failure(
                    Some(error.text()),
                ),
            }),
            result matches Err(error) ==> {
                &&& snapshot.version@.len() == 0
                &&& snapshot.mode == Mode::Rule
                &&& snapshot.groups@.len() == 0
                &&& snapshot.rules@.len() == 0
                &&& snapshot.error matches Some(message) && message@ == error.text()
            },
    {
        match result {
            Ok(snapshot) => snapshot,
            Err(error) => {
                let mut snapshot = Snapshot::default();
                snapshot.error = Some(error.message());
                snapshot
            },
        }
    }

    /// Report `failure` when the command that triggered a refresh did not go through. A kernel
    /// that cannot be reached is the more pressing news.
    pub fn refresh(self, failure: Option<String>) -> (snapshot: Self)
        ensures
            snapshot@ == self@.with_failure(opt_text(failure)),
            snapshot.version == self.version,
            snapshot.mode == self.mode,
            snapshot.groups == self.groups,
            snapshot.rules == self.rules,
            self.error is Some ==> snapshot.error == self.error,
            self.error is None ==> snapshot.error == failure,
    {
        let mut snapshot = self;
        if snapshot.error.is_none() {
            snapshot.error = failure;
        }
        snapshot
    }
}

/// A document of the controller that a snapshot is made of.
pub enum Document {
    Configs(Mode),
    Proxies(Vec<(String, Proxy)>),
    Version(String),
    Rules(Vec<Rule>),
}

/// How far the reading of a snapshot has come: which document is next, and what the earlier ones
/// said.
pub enum Progress {
    Configs,
    Proxies { mode: Mode },
    Version { mode: Mode, proxies: Vec<(String, Proxy)> },
    Rules { mode: Mode, proxies: Vec<(String, Proxy)>, version: String },
}

/// What comes after a document was read: another one, or the end.
pub enum Advance {
    Ask(Progress),
    Done(Result<Snapshot, Error>),
}

/// A snapshot is made of these: the version, the mode and the rules as they are reported, and the
/// visible groups. Nothing went wrong.
pub open spec fn is_assembled(
    mode: Mode,
    proxies: Seq<(String, Proxy)>,
    version: String,
    rules: Vec<Rule>,
    snapshot: Snapshot,
) -> bool {
    &&& snapshot.version == version
    &&& snapshot.mode == mode
    &&& lists_groups(report(proxies), snapshot@.groups)
    &&& snapshot.rules == rules
    &&& snapshot.error is None
}

impl Progress {
    /// Where the document is found.
    pub open spec fn path_text(self) -> Seq<char> {
        match self {
            Progress::Configs => "/configs"@,
            Progress::Proxies { .. } => "/proxies"@,
            Progress::Version { .. } => "/version"@,
            Progress::Rules { .. } => "/rules"@,
        }
    }

    /// Whether the document is the one that is next.
    pub open spec fn expects(self, document: Document) -> bool {
        match self {
            Progress::Configs => document is Configs,
            Progress::Proxies { .. } => document is Proxies,
            Progress::Version { .. } => document is Version,
            Progress::Rules { .. } => document is Rules,
        }
    }

    /// What follows a reply: a failure ends the reading, a document leads to the next one, and
    /// the last one to the snapshot.
    pub open spec fn leads_to(self, reply: Result<Document, Error>, next: Advance) -> bool {
        match reply {
            Err(error) => next == Advance::Done(Err(error)),
            Ok(document) => match (self, document) {
                (Progress::Configs, Document::Configs(mode)) => next == Advance::Ask(
                    Progress::Proxies { mode },
                ),
                (Progress::Proxies { mode }, Document::Proxies(proxies)) => next == Advance::Ask(
                    Progress::Version { mode, proxies },
                ),
                (Progress::Version { mode, proxies }, Document::Version(version)) => next
                    == Advance::Ask(Progress::Rules { mode, proxies, version }),
                (Progress::Rules { mode, proxies, version }, Document::Rules(rules)) => {
                    &&& next matches Advance::Done(Ok(snapshot))
                    &&& is_assembled(mode, proxies@, version, rules, snapshot)
                },
                _ => false,
            },
        }
    }

    /// Where the document is found.
    pub fn path(&self) -> (path: &'static str)
        ensures
            path@ == self.path_text(),
    {
        match self {
            Progress::Configs => "/configs",
            Progress::Proxies { .. } => "/proxies",
            Progress::Version { .. } => "/version",
            Progress::Rules { .. } => "/rules",
        }
    }

    /// Take the reply that was asked for.
    pub fn advance(self, reply: Result<Document, Error>) -> (next: Advance)
        requires
            reply matches Ok(document) ==> self.expects(document),
        ensures
            self.leads_to(reply, next),
    {
        match reply {
            Err(error) => Advance::Done(Err(error)),
            Ok(document) => match (self, document) {
                (Progress::Configs, Document::Configs(mode)) => Advance::Ask(
                    Progress::Proxies { mode },
                ),
                (Progress::Proxies { mode }, Document::Proxies(proxies)) => Advance::Ask(
                    Progress::Version { mode, proxies },
                ),
                (Progress::Version { mode, proxies }, Document::Version(version)) => Advance::Ask(
                    Progress::Rules { mode, proxies, version },
                ),
                (Progress::Rules { mode, proxies, version }, Document::Rules(rules)) => {
                    Advance::Done(
                        Ok(
                            Snapshot {
                                version,
                                mode,
                                groups: groups(&proxies),
                                rules,
                                error: None,
                            },
                        ),
                    )
                },
                (progress, _) => Advance::Ask(progress),
            },
        }
    }
}

impl Api {
    /// The request for the document that a snapshot needs next.
    pub fn snapshot(&self, progress: &Progress) -> (result: Result<http::Request<Vec<u8>>, Error>)
        ensures
            is_built(
                self@.request(
                    CallView { method: Method::Get, path: progress.path_text(), body: None },
                ),
                result,
            ),
    {
        self.get(progress.path())
    }
}

/// A snapshot is read document by document: configuration, proxies, version, rules. Where all
/// four come, the snapshot holds what they say.
pub proof fn four_documents_make_a_snapshot(
    mode: Mode,
    proxies: Vec<(String, Proxy)>,
    version: String,
    rules: Vec<Rule>,
    after: (Advance, Advance, Advance, Advance),
)
    requires
        Progress::Configs.leads_to(Ok(Document::Configs(mode)), after.0),
        after.0 matches Advance::Ask(progress) ==> progress.leads_to(
            Ok(Document::Proxies(proxies)),
            after.1,
        ),
        after.1 matches Advance::Ask(progress) ==> progress.leads_to(
            Ok(Document::Version(version)),
            after.2,
        ),
        after.2 matches Advance::Ask(progress) ==> progress.leads_to(
            Ok(Document::Rules(rules)),
            after.3,
        ),
    ensures
        after.3 matches Advance::Done(Ok(snapshot)) && is_assembled(
            mode,
            proxies@,
            version,
            rules,
            snapshot,
        ),
{
}

/// The first failure ends the reading, whichever document it befalls, and is what the reading
/// comes to.
pub proof fn first_failure_ends_the_reading(progress: Progress, error: Error, next: Advance)
    requires
        progress.leads_to(Err(error), next),
    ensures
        next == Advance::Done(Err(error)),
{
}

/// The view of a snapshot is the snapshot.
pub proof fn a_snapshot_is_seen_whole(snapshot: Snapshot)
    ensures
        snapshot@.version == snapshot.version@,
        snapshot@.mode == snapshot.mode,
        snapshot@.groups.len() == snapshot.groups@.len(),
        forall|i: int|
            0 <= i < snapshot.groups@.len() ==> #[trigger] snapshot@.groups[i]
                == snapshot.groups@[i]@,
        snapshot@.rules.len() == snapshot.rules@.len(),
        forall|i: int|
            0 <= i < snapshot.rules@.len() ==> #[trigger] snapshot@.rules[i]
                == snapshot.rules@[i]@,
        snapshot@.error is None <==> snapshot.error is None,
        snapshot.error matches Some(error) ==> snapshot@.error == Some(error@),
{
}

/// Refreshing changes nothing but the error, and that only where a command failed and the kernel
/// was reached.
pub proof fn refreshing_changes_only_the_error(
    state: SnapshotView,
    failure: Option<Seq<char>>,
)
    ensures
        state.with_failure(failure).version == state.version,
        state.with_failure(failure).mode == state.mode,
        state.with_failure(failure).groups == state.groups,
        state.with_failure(failure).rules == state.rules,
        state.error is Some ==> state.with_failure(failure).error == state.error,
        state.error is None ==> state.with_failure(failure).error == failure,
        state.with_failure(None) == state,
{
}

/// Nothing is known of a kernel that was never reached.
pub proof fn an_unknown_kernel_has_nothing_to_show()
    ensures
        SnapshotView::unknown().version.len() == 0,
        SnapshotView::unknown().mode is Rule,
        SnapshotView::unknown().groups.len() == 0,
        SnapshotView::unknown().rules.len() == 0,
        SnapshotView::unknown().error is None,
{
}

/// What four documents say is in the snapshot: version, mode and rules as they came, no error,
/// and of the proxies those that have members and are not hidden, with their current node and
/// their members.
pub proof fn a_snapshot_says_what_the_documents_say(
    mode: Mode,
    proxies: Vec<(String, Proxy)>,
    version: String,
    rules: Vec<Rule>,
    after: (Advance, Advance, Advance, Advance),
    group: GroupView,
)
    requires
        Progress::Configs.leads_to(Ok(Document::Configs(mode)), after.0),
        after.0 matches Advance::Ask(progress) ==> progress.leads_to(
            Ok(Document::Proxies(proxies)),
            after.1,
        ),
        after.1 matches Advance::Ask(progress) ==> progress.leads_to(
            Ok(Document::Version(version)),
            after.2,
        ),
        after.2 matches Advance::Ask(progress) ==> progress.leads_to(
            Ok(Document::Rules(rules)),
            after.3,
        ),
    ensures
        after.3 matches Advance::Done(Ok(snapshot)) && {
            &&& snapshot.version == version
            &&& snapshot.mode == mode
            &&& snapshot.rules == rules
            &&& snapshot.error is None
            &&& snapshot@.groups.contains(group) <==> exists|i: int|
                0 <= i < proxies@.len() && (#[trigger] proxies@[i]).1@.all.len() > 0
                    && !proxies@[i].1@.hidden && group.name == proxies@[i].0@ && group.now
                    == proxies@[i].1@.now && group.nodes == proxies@[i].1@.all
        },
{
    four_documents_make_a_snapshot(mode, proxies, version, rules, after);
    if let Advance::Done(Ok(snapshot)) = after.3 {
        let all = report(proxies@);
        listed_groups_are_the_visible_ones(all, snapshot@.groups, group);
        assert forall|i: int| 0 <= i < all.len() implies #[trigger] all[i] == (
            proxies@[i].0@,
            proxies@[i].1@,
        ) by {}
        if snapshot@.groups.contains(group) {
            let i = choose|i: int|
                0 <= i < all.len() && (#[trigger] all[i]).1.all.len() > 0 && !all[i].1.hidden
                    && group.name == all[i].0 && group.now == all[i].1.now && group.nodes
                    == all[i].1.all;
            assert(proxies@[i].1@ == all[i].1);
        }
        if exists|i: int|
            0 <= i < proxies@.len() && (#[trigger] proxies@[i]).1@.all.len() > 0
                && !proxies@[i].1@.hidden && group.name == proxies@[i].0@ && group.now
                == proxies@[i].1@.now && group.nodes == proxies@[i].1@.all {
            let i = choose|i: int|
                0 <= i < proxies@.len() && (#[trigger] proxies@[i]).1@.all.len() > 0
                    && !proxies@[i].1@.hidden && group.name == proxies@[i].0@ && group.now
                    == proxies@[i].1@.now && group.nodes == proxies@[i].1@.all;
            assert(all[i].1 == proxies@[i].1@);
        }
    }
}

/// The groups of a snapshot that four documents make come in the order of their names, and each
/// once where no two proxies share a name.
pub proof fn the_groups_of_a_snapshot_are_in_order(
    mode: Mode,
    proxies: Vec<(String, Proxy)>,
    version: String,
    rules: Vec<Rule>,
    after: (Advance, Advance, Advance, Advance),
    i: int,
    j: int,
)
    requires
        Progress::Configs.leads_to(Ok(Document::Configs(mode)), after.0),
        after.0 matches Advance::Ask(progress) ==> progress.leads_to(
            Ok(Document::Proxies(proxies)),
            after.1,
        ),
        after.1 matches Advance::Ask(progress) ==> progress.leads_to(
            Ok(Document::Version(version)),
            after.2,
        ),
        after.2 matches Advance::Ask(progress) ==> progress.leads_to(
            Ok(Document::Rules(rules)),
            after.3,
        ),
    ensures
        after.3 matches Advance::Done(Ok(snapshot)) && (0 <= i < j < snapshot.groups@.len() ==> {
            &&& !text_less(snapshot.groups@[j].name@, snapshot.groups@[i].name@)
            &&& (forall|a: int, b: int|
                0 <= a < b < proxies@.len() ==> (#[trigger] proxies@[a]).0@ != (
                #[trigger] proxies@[b]).0@) ==> text_less(
                snapshot.groups@[i].name@,
                snapshot.groups@[j].name@,
            )
        }),
{
    four_documents_make_a_snapshot(mode, proxies, version, rules, after);
    if let Advance::Done(Ok(snapshot)) = after.3 {
        let all = report(proxies@);
        let listed = snapshot@.groups;
        if 0 <= i < j < snapshot.groups@.len() {
            listed_groups_are_in_order(all, listed, i, j);
            assert(listed[i].name == snapshot.groups@[i].name@);
            assert(listed[j].name == snapshot.groups@[j].name@);
            if forall|a: int, b: int|
                0 <= a < b < proxies@.len() ==> (#[trigger] proxies@[a]).0@ != (
                #[trigger] proxies@[b]).0@ {
                assert forall|a: int, b: int| 0 <= a < b < all.len() implies (
                #[trigger] all[a]).0 != (#[trigger] all[b]).0 by {
                    assert(all[a].0 == proxies@[a].0@ && all[b].0 == proxies@[b].0@);
                }
                listed_names_ascend(all, listed);
            }
        }
    }
}

/// The documents are expected one by one: configuration, proxies, version, rules, whatever they
/// hold.
pub proof fn documents_are_expected_in_turn(progress: Progress, document: Document)
    ensures
        progress is Configs ==> (progress.expects(document) <==> document is Configs),
        progress is Proxies ==> (progress.expects(document) <==> document is Proxies),
        progress is Version ==> (progress.expects(document) <==> document is Version),
        progress is Rules ==> (progress.expects(document) <==> document is Rules),
{
}

/// Each document is found under its own path.
pub proof fn documents_are_found_under_their_paths(progress: Progress)
    ensures
        progress is Configs ==> progress.path_text() == "/configs"@,
        progress is Proxies ==> progress.path_text() == "/proxies"@,
        progress is Version ==> progress.path_text() == "/version"@,
        progress is Rules ==> progress.path_text() == "/rules"@,
{
}

} // verus!
