//! What the kernel reports: its mode, its policy groups and its rules.

use vstd::prelude::*;
use vstd::string::StringExecFns;

use crate::text::{
    comes_before, copy_all, copy_opt, opt_text, text_less, text_order_is_strict,
    text_order_is_total, texts,
};

verus! {

/// The kernel's `mode`.
#[derive(Clone, Copy, Debug, PartialEq, Eq, Structural)]
pub enum Mode {
    Rule,
    Direct,
    Global,
}

impl Mode {
    /// The modes in menu order.
    pub const ALL: [Mode; 3] = [Mode::Rule, Mode::Direct, Mode::Global];

    /// Name shown in the menu.
    pub open spec fn label_text(self) -> Seq<char> {
        match self {
            Mode::Rule => "Rule"@,
            Mode::Direct => "Direct"@,
            Mode::Global => "Global"@,
        }
    }

    /// Name that the controller knows the mode by.
    pub open spec fn wire_text(self) -> Seq<char> {
        match self {
            Mode::Rule => "rule"@,
            Mode::Direct => "direct"@,
            Mode::Global => "global"@,
        }
    }

    /// Name shown in the menu.
    pub fn label(self) -> (label: &'static str)
        ensures
            label@ == self.label_text(),
    {
        match self {
            Mode::Rule => "Rule",
            Mode::Direct => "Direct",
            Mode::Global => "Global",
        }
    }

    /// Name that the controller knows the mode by.
    pub fn wire_name(self) -> (name: &'static str)
        ensures
            name@ == self.wire_text(),
    {
        match self {
            Mode::Rule => "rule",
            Mode::Direct => "direct",
            Mode::Global => "global",
        }
    }

    /// Position of the mode in [`Mode::ALL`].
    pub open spec fn rank(self) -> int {
        match self {
            Mode::Rule => 0,
            Mode::Direct => 1,
            Mode::Global => 2,
        }
    }

    /// Position of the mode in [`Mode::ALL`].
    pub fn position(self) -> (index: usize)
        ensures
            index == self.rank(),
            Mode::ALL@[index as int] == self,
    {
        let mut index: usize = 0;
        while index < 2 && Mode::ALL[index] != self
            invariant
                index <= 2,
                forall|i: int| 0 <= i < index ==> Mode::ALL@[i] != self,
            decreases 2 - index,
        {
            index += 1;
        }
        index
    }
}

/// Every mode is offered once: it stands at one position of [`Mode::ALL`].
pub proof fn every_mode_is_offered_once(mode: Mode)
    ensures
        0 <= mode.rank() < 3,
        Mode::ALL@[mode.rank()] == mode,
        Mode::ALL@.no_duplicates(),
{
    assert(Mode::ALL@[0] == Mode::Rule);
    assert(Mode::ALL@[1] == Mode::Direct);
    assert(Mode::ALL@[2] == Mode::Global);
}

/// Both names of a mode are its own.
pub proof fn mode_names_are_distinct(a: Mode, b: Mode)
    ensures
        a.label_text() == b.label_text() <==> a == b,
        a.wire_text() == b.wire_text() <==> a == b,
{
    reveal_strlit("Rule");
    reveal_strlit("Direct");
    reveal_strlit("Global");
    reveal_strlit("rule");
    reveal_strlit("direct");
    reveal_strlit("global");
    assert("Direct"@[0] == 'D' && "Global"@[0] == 'G');
    assert("direct"@[0] == 'd' && "global"@[0] == 'g');
}

impl Default for Mode {
    fn default() -> (mode: Self)
        ensures
            mode == Mode::Rule,
    {
        Mode::Rule
    }
}

/// A policy group, e.g. a `Selector` or a `URLTest`.
pub struct Group {
    pub name: String,
    /// Node the group currently uses.
    pub now: Option<String>,
    pub nodes: Vec<String>,
}

/// What a [`Group`] says.
#[verifier::ext_equal]
pub struct GroupView {
    pub name: Seq<char>,
    pub now: Option<Seq<char>>,
    pub nodes: Seq<Seq<char>>,
}

impl View for Group {
    type V = GroupView;

    open spec fn view(&self) -> GroupView {
        GroupView { name: self.name@, now: opt_text(self.now), nodes: texts(self.nodes@) }
    }
}

impl Clone for Group {
    fn clone(&self) -> (copy: Self)
        ensures
            copy@ == self@,
    {
        Group {
            name: self.name.clone(),
            now: copy_opt(&self.now),
            nodes: copy_all(&self.nodes),
        }
    }
}

impl GroupView {
    /// Index of the first node that is named like the current one, and 0 where there is none.
    pub open spec fn selection(self) -> int {
        match self.now {
            Some(now) => match self.nodes.index_of_first(now) {
                Some(index) => index,
                None => 0,
            },
            None => 0,
        }
    }
}

impl Group {
    /// Index of [`Group::now`], for the radio group of the menu.
    pub fn selection(&self) -> (index: usize)
        ensures
            index == self@.selection(),
            (match self@.now {
                Some(now) if self@.nodes.contains(now) => {
                    &&& index < self@.nodes.len()
                    &&& self@.nodes[index as int] == now
                    &&& forall|i: int| 0 <= i < index ==> #[trigger] self@.nodes[i] != now
                },
                _ => index == 0,
            }),
    {
        if let Some(now) = &self.now {
            let ghost nodes = self@.nodes;
            let mut index: usize = 0;
            while index < self.nodes.len()
                invariant
                    index <= self.nodes@.len(),
                    nodes == texts(self.nodes@),
                    self@.now == Some(now@),
                    self@.nodes == nodes,
                    forall|i: int| 0 <= i < index ==> nodes[i] != now@,
                decreases self.nodes@.len() - index,
            {
                if self.nodes[index] == *now {
                    proof {
                        nodes.index_of_first_ensures(now@);
                        assert(nodes[index as int] == now@);
                        assert(nodes.contains(now@));
                    }
                    return index;
                }
                index += 1;
            }
            proof {
                nodes.index_of_first_ensures(now@);
            }
        }
        0
    }
}

/// A rule of the running configuration.
pub struct Rule {
    /// Position in the rule list, which `/rules/disable` takes.
    pub index: u64,
    pub kind: String,
    pub payload: String,
    pub proxy: String,
    /// Runtime state; the kernel only reports it for rules it can switch off.
    pub extra: RuleExtra,
}

/// What the kernel knows about a rule beyond its definition.
#[derive(Clone, Copy, Debug, PartialEq, Eq, Structural)]
pub struct RuleExtra {
    pub disabled: bool,
}

impl Default for RuleExtra {
    fn default() -> (extra: Self)
        ensures
            !extra.disabled,
    {
        RuleExtra { disabled: false }
    }
}

/// What a [`Rule`] says.
#[verifier::ext_equal]
pub struct RuleView {
    pub index: u64,
    pub kind: Seq<char>,
    pub payload: Seq<char>,
    pub proxy: Seq<char>,
    pub disabled: bool,
}

impl View for Rule {
    type V = RuleView;

    open spec fn view(&self) -> RuleView {
        RuleView {
            index: self.index,
            kind: self.kind@,
            payload: self.payload@,
            proxy: self.proxy@,
            disabled: self.extra.disabled,
        }
    }
}

impl Clone for Rule {
    fn clone(&self) -> (copy: Self)
        ensures
            copy@ == self@,
    {
        Rule {
            index: self.index,
            kind: self.kind.clone(),
            payload: self.payload.clone(),
            proxy: self.proxy.clone(),
            extra: self.extra,
        }
    }
}

/// The views of a list of rules.
pub open spec fn rule_views(rules: Seq<Rule>) -> Seq<RuleView> {
    rules.map_values(|rule: Rule| rule@)
}

impl RuleView {
    /// `kind payload → proxy`, without the payload where it is empty.
    pub open spec fn text(self) -> Seq<char> {
        if self.payload.len() == 0 {
            self.kind + " → "@ + self.proxy
        } else {
            self.kind + " "@ + self.payload + " → "@ + self.proxy
        }
    }
}

impl Rule {
    /// The rule as the menu shows it.
    pub fn text(&self) -> (text: String)
        ensures
            text@ == self@.text(),
    {
        let mut text = self.kind.clone();
        if !self.payload.as_str().is_empty() {
            text.append(" ");
            text.append(self.payload.as_str());
        }
        text.append(" → ");
        text.append(self.proxy.as_str());
        text
    }
}

/// A proxy or a policy group, as reported by `/proxies`.
pub struct Proxy {
    pub now: Option<String>,
    pub hidden: bool,
    pub all: Vec<String>,
}

/// What a [`Proxy`] says.
#[verifier::ext_equal]
pub struct ProxyView {
    pub now: Option<Seq<char>>,
    pub hidden: bool,
    pub all: Seq<Seq<char>>,
}

impl View for Proxy {
    type V = ProxyView;

    open spec fn view(&self) -> ProxyView {
        ProxyView { now: opt_text(self.now), hidden: self.hidden, all: texts(self.all@) }
    }
}

impl ProxyView {
    /// Only a group has members, and only one that is not hidden is listed.
    pub open spec fn visible(self) -> bool {
        self.all.len() > 0 && !self.hidden
    }
}

/// `result` stands for `value`: it is the value where there is one, and a default otherwise.
pub open spec fn stands_for<T: Default>(value: Option<T>, result: T) -> bool {
    match value {
        Some(value) => result == value,
        None => call_ensures(T::default, (), result),
    }
}

/// Take `null` (the kernel uses it for "not measured yet") and a missing field as the default.
pub fn null_default<T: Default>(value: Option<T>) -> (result: T)
    ensures
        stands_for(value, result),
        (match value {
            Some(value) => result == value,
            None => call_ensures(T::default, (), result),
        }),
{
    match value {
        Some(value) => value,
        None => T::default(),
    }
}

/// The views of a proxy report: each proxy under its name.
pub open spec fn report(proxies: Seq<(String, Proxy)>) -> Seq<(Seq<char>, ProxyView)> {
    proxies.map_values(|entry: (String, Proxy)| (entry.0@, entry.1@))
}

/// The views of a list of groups.
pub open spec fn group_views(groups: Seq<Group>) -> Seq<GroupView> {
    groups.map_values(|group: Group| group@)
}

/// The group that a proxy of the report is listed as.
pub open spec fn group_of(entry: (Seq<char>, ProxyView)) -> GroupView {
    GroupView { name: entry.0, now: entry.1.now, nodes: entry.1.all }
}

/// The visible groups of a report, in the order of the report.
pub open spec fn visible_groups(proxies: Seq<(Seq<char>, ProxyView)>) -> Seq<GroupView>
    decreases proxies.len(),
{
    if proxies.len() == 0 {
        Seq::empty()
    } else {
        let earlier = visible_groups(proxies.drop_last());
        if proxies.last().1.visible() {
            earlier.push(group_of(proxies.last()))
        } else {
            earlier
        }
    }
}

/// No group comes before one that is listed ahead of it.
pub open spec fn sorted_by_name(groups: Seq<GroupView>) -> bool {
    forall|i: int, j: int|
        0 <= i < j < groups.len() ==> !text_less(
            #[trigger] groups[j].name,
            #[trigger] groups[i].name,
        )
}

/// `groups` lists the visible groups of the report, each as often as it is reported, by name.
pub open spec fn lists_groups(
    proxies: Seq<(Seq<char>, ProxyView)>,
    groups: Seq<GroupView>,
) -> bool {
    &&& sorted_by_name(groups)
    &&& groups.to_multiset() == visible_groups(proxies).to_multiset()
}

/// Put `group` behind the groups that do not come after it.
fn insert_by_name(groups: &mut Vec<Group>, group: Group)
    requires
        sorted_by_name(group_views(old(groups)@)),
    ensures
        sorted_by_name(group_views(final(groups)@)),
        group_views(final(groups)@).to_multiset() == group_views(
            old(groups)@,
        ).to_multiset().insert(group@),
{
    let ghost before = group_views(groups@);
    let ghost inserted = group@;
    let mut at: usize = groups.len();
    while at > 0 && comes_before(group.name.as_str(), groups[at - 1].name.as_str())
        invariant
            at <= groups@.len(),
            before == group_views(groups@),
            inserted == group@,
            forall|i: int|
                at <= i < before.len() ==> text_less(inserted.name, #[trigger] before[i].name),
        decreases at,
    {
        at -= 1;
    }
    groups.insert(at, group);
    proof {
        let after = group_views(groups@);
        assert(after =~= before.insert(at as int, inserted));
        vstd::seq_lib::to_multiset_insert(before, at as int, inserted);
        assert forall|i: int, j: int| 0 <= i < j < after.len() implies !text_less(
            #[trigger] after[j].name,
            #[trigger] after[i].name,
        ) by {
            let n = at as int;
            if j == n {
                // The group ahead of the insertion point does not come after the new one, and
                // nothing further ahead comes after that group.
                let last = before[n - 1].name;
                if text_less(inserted.name, before[i].name) {
                    assert(!text_less(inserted.name, last));
                    if i < n - 1 {
                        assert(!text_less(last, before[i].name));
                        text_order_is_total(last, before[i].name);
                        text_order_is_strict(inserted.name, before[i].name, last);
                    }
                }
            } else if i == n {
                assert(text_less(inserted.name, before[j - 1].name));
                text_order_is_strict(inserted.name, before[j - 1].name, inserted.name);
            } else {
                let k = if i < n { i } else { i - 1 };
                let l = if j < n { j } else { j - 1 };
                assert(!text_less(before[l].name, before[k].name));
            }
        }
    }
}

/// A proxy that has members and is not hidden is among the listed groups.
proof fn lemma_visible_proxy_is_listed(
    proxies: Seq<(String, Proxy)>,
    listed: Seq<GroupView>,
    i: int,
)
    requires
        lists_groups(report(proxies), listed),
        0 <= i < proxies.len(),
        proxies[i].1.all@.len() > 0,
        !proxies[i].1.hidden,
    ensures
        listed.contains(
            (GroupView {
                name: proxies[i].0@,
                now: proxies[i].1@.now,
                nodes: proxies[i].1@.all,
            }),
        ),
{
    let all = report(proxies);
    let group = GroupView { name: proxies[i].0@, now: proxies[i].1@.now, nodes: proxies[i].1@.all };
    listed_groups_are_the_visible_ones(all, listed, group);
    assert(all[i] == (proxies[i].0@, proxies[i].1@));
}

/// A listed group is a proxy that has members and is not hidden.
proof fn lemma_listed_group_is_visible(
    proxies: Seq<(String, Proxy)>,
    listed: Seq<GroupView>,
    group: GroupView,
) -> (i: int)
    requires
        lists_groups(report(proxies), listed),
        listed.contains(group),
    ensures
        0 <= i < proxies.len(),
        proxies[i].1.all@.len() > 0,
        !proxies[i].1.hidden,
        group.name == proxies[i].0@,
        group.now == proxies[i].1@.now,
        group.nodes == proxies[i].1@.all,
{
    let all = report(proxies);
    listed_groups_are_the_visible_ones(all, listed, group);
    let i = choose|i: int|
        0 <= i < all.len() && (#[trigger] all[i]).1.all.len() > 0 && !all[i].1.hidden
            && group.name == all[i].0 && group.now == all[i].1.now && group.nodes
            == all[i].1.all;
    assert(all[i] == (proxies[i].0@, proxies[i].1@));
    i
}

/// Keep the visible policy groups with their members, in the order of their names.
pub fn groups(proxies: &Vec<(String, Proxy)>) -> (groups: Vec<Group>)
    ensures
        lists_groups(report(proxies@), group_views(groups@)),
        forall|i: int|
            0 <= i < proxies@.len() && (#[trigger] proxies@[i]).1.all@.len() > 0
                && !proxies@[i].1.hidden ==> group_views(groups@).contains(
                (GroupView {
                    name: proxies@[i].0@,
                    now: proxies@[i].1@.now,
                    nodes: proxies@[i].1@.all,
                }),
            ),
        forall|group: GroupView| #[trigger]
            group_views(groups@).contains(group) ==> exists|i: int|
                0 <= i < proxies@.len() && (#[trigger] proxies@[i]).1.all@.len() > 0
                    && !proxies@[i].1.hidden && group.name == proxies@[i].0@ && group.now
                    == proxies@[i].1@.now && group.nodes == proxies@[i].1@.all,
        forall|j: int, k: int|
            0 <= j < k < groups@.len() ==> !text_less(
                (#[trigger] groups@[k]).name@,
                (#[trigger] groups@[j]).name@,
            ),
{
    let ghost all = report(proxies@);
    let mut groups: Vec<Group> = Vec::new();
    let mut i: usize = 0;
    assert(group_views(groups@) =~= visible_groups(all.take(0)));
    while i < proxies.len()
        invariant
            i <= proxies@.len(),
            all == report(proxies@),
            lists_groups(all.take(i as int), group_views(groups@)),
        decreases proxies@.len() - i,
    {
        let name = &proxies[i].0;
        let proxy = &proxies[i].1;
        proof {
            assert(all.take(i + 1).drop_last() =~= all.take(i as int));
            assert(all.take(i + 1).last() == (name@, proxy@));
            vstd::seq_lib::to_multiset_build(
                visible_groups(all.take(i as int)),
                group_of((name@, proxy@)),
            );
        }
        if proxy.all.len() > 0 && !proxy.hidden {
            insert_by_name(
                &mut groups,
                Group {
                    name: name.clone(),
                    now: copy_opt(&proxy.now),
                    nodes: copy_all(&proxy.all),
                },
            );
        }
        i += 1;
    }
    assert(all.take(i as int) =~= all);
    proof {
        assert forall|i: int|
            0 <= i < proxies@.len() && (#[trigger] proxies@[i]).1.all@.len() > 0
                && !proxies@[i].1.hidden implies group_views(groups@).contains(
            (GroupView {
                name: proxies@[i].0@,
                now: proxies@[i].1@.now,
                nodes: proxies@[i].1@.all,
            }),
        ) by {
            lemma_visible_proxy_is_listed(proxies@, group_views(groups@), i);
        }
        assert forall|group: GroupView| #[trigger]
            group_views(groups@).contains(group) implies exists|i: int|
            0 <= i < proxies@.len() && (#[trigger] proxies@[i]).1.all@.len() > 0
                && !proxies@[i].1.hidden && group.name == proxies@[i].0@ && group.now
                == proxies@[i].1@.now && group.nodes == proxies@[i].1@.all by {
            let i = lemma_listed_group_is_visible(proxies@, group_views(groups@), group);
            assert(proxies@[i].1.all@.len() > 0);
        }
        let listed = group_views(groups@);
        assert forall|j: int, k: int| 0 <= j < k < groups@.len() implies !text_less(
            (#[trigger] groups@[k]).name@,
            (#[trigger] groups@[j]).name@,
        ) by {
            assert(!text_less(listed[k].name, listed[j].name));
        }
    }
    groups
}

/// No two proxies of the report share a name.
pub open spec fn distinct_names(proxies: Seq<(Seq<char>, ProxyView)>) -> bool {
    forall|i: int, j: int|
        0 <= i < proxies.len() && 0 <= j < proxies.len() && i != j ==> (#[trigger] proxies[i]).0
            != (#[trigger] proxies[j]).0
}

/// Each group is listed in front of those that come after it.
pub open spec fn strictly_sorted_by_name(groups: Seq<GroupView>) -> bool {
    forall|i: int, j: int|
        0 <= i < j < groups.len() ==> text_less(
            #[trigger] groups[i].name,
            #[trigger] groups[j].name,
        )
}

proof fn lemma_visible_groups_split(
    front: Seq<(Seq<char>, ProxyView)>,
    back: Seq<(Seq<char>, ProxyView)>,
)
    ensures
        visible_groups(front + back) == visible_groups(front) + visible_groups(back),
    decreases back.len(),
{
    if back.len() == 0 {
        assert(front + back =~= front);
        assert(visible_groups(front) + visible_groups(back) =~= visible_groups(front));
    } else {
        lemma_visible_groups_split(front, back.drop_last());
        assert((front + back).drop_last() =~= front + back.drop_last());
        assert((front + back).last() == back.last());
        assert(visible_groups(front + back) =~= visible_groups(front) + visible_groups(back));
    }
}

/// A group is among the visible ones where a visible proxy of the report is listed as it.
proof fn lemma_visible_groups_members(proxies: Seq<(Seq<char>, ProxyView)>)
    ensures
        forall|group: GroupView| #[trigger]
            visible_groups(proxies).contains(group) <==> exists|i: int|
                0 <= i < proxies.len() && (#[trigger] proxies[i]).1.visible() && group_of(
                    proxies[i],
                ) == group,
    decreases proxies.len(),
{
    if proxies.len() > 0 {
        let front = proxies.drop_last();
        let n = front.len() as int;
        lemma_visible_groups_members(front);
        assert forall|group: GroupView| #[trigger]
            visible_groups(proxies).contains(group) <==> exists|i: int|
                0 <= i < proxies.len() && (#[trigger] proxies[i]).1.visible() && group_of(
                    proxies[i],
                ) == group by {
            if visible_groups(proxies).contains(group) {
                let k = choose|k: int|
                    0 <= k < visible_groups(proxies).len() && visible_groups(proxies)[k] == group;
                if k < visible_groups(front).len() {
                    assert(visible_groups(front)[k] == group);
                    assert(visible_groups(front).contains(group));
                    let i = choose|i: int|
                        0 <= i < front.len() && (#[trigger] front[i]).1.visible() && group_of(
                            front[i],
                        ) == group;
                    assert(proxies[i] == front[i]);
                } else {
                    assert(proxies[n].1.visible());
                }
            }
            if exists|i: int|
                0 <= i < proxies.len() && (#[trigger] proxies[i]).1.visible() && group_of(
                    proxies[i],
                ) == group {
                let i = choose|i: int|
                    0 <= i < proxies.len() && (#[trigger] proxies[i]).1.visible() && group_of(
                        proxies[i],
                    ) == group;
                if i < n {
                    assert(front[i] == proxies[i]);
                    assert(visible_groups(front).contains(group));
                    let k = choose|k: int|
                        0 <= k < visible_groups(front).len() && visible_groups(front)[k] == group;
                    assert(visible_groups(proxies)[k] == group);
                } else {
                    assert(visible_groups(proxies).last() == group);
                }
            }
        }
    }
}

/// What is listed: a group is in the list exactly where a proxy is reported under its name that
/// has members and is not hidden, and it holds that proxy's current node and its members.
pub proof fn listed_groups_are_the_visible_ones(
    proxies: Seq<(Seq<char>, ProxyView)>,
    groups: Seq<GroupView>,
    group: GroupView,
)
    requires
        lists_groups(proxies, groups),
    ensures
        groups.contains(group) <==> exists|i: int|
            0 <= i < proxies.len() && (#[trigger] proxies[i]).1.visible() && group_of(proxies[i])
                == group,
        groups.contains(group) <==> exists|i: int|
            0 <= i < proxies.len() && (#[trigger] proxies[i]).1.all.len() > 0
                && !proxies[i].1.hidden && group.name == proxies[i].0 && group.now
                == proxies[i].1.now && group.nodes == proxies[i].1.all,
{
    lemma_visible_groups_members(proxies);
    vstd::seq_lib::to_multiset_contains(groups, group);
    vstd::seq_lib::to_multiset_contains(visible_groups(proxies), group);
    if groups.contains(group) {
        let i = choose|i: int|
            0 <= i < proxies.len() && (#[trigger] proxies[i]).1.visible() && group_of(proxies[i])
                == group;
        assert(proxies[i].1.all.len() > 0 && !proxies[i].1.hidden);
    }
    if exists|i: int|
        0 <= i < proxies.len() && (#[trigger] proxies[i]).1.all.len() > 0 && !proxies[i].1.hidden
            && group.name == proxies[i].0 && group.now == proxies[i].1.now && group.nodes
            == proxies[i].1.all {
        let i = choose|i: int|
            0 <= i < proxies.len() && (#[trigger] proxies[i]).1.all.len() > 0
                && !proxies[i].1.hidden && group.name == proxies[i].0 && group.now
                == proxies[i].1.now && group.nodes == proxies[i].1.all;
        assert(proxies[i].1.visible() && group_of(proxies[i]) == group);
    }
}

proof fn lemma_visible_groups_distinct(proxies: Seq<(Seq<char>, ProxyView)>)
    requires
        distinct_names(proxies),
    ensures
        forall|i: int, j: int|
            0 <= i < visible_groups(proxies).len() && 0 <= j < visible_groups(proxies).len() && i
                != j ==> (#[trigger] visible_groups(proxies)[i]).name != (
            #[trigger] visible_groups(proxies)[j]).name,
    decreases proxies.len(),
{
    if proxies.len() > 0 {
        let front = proxies.drop_last();
        lemma_visible_groups_distinct(front);
        lemma_visible_groups_members(front);
        let listed = visible_groups(front);
        assert forall|k: int| 0 <= k < listed.len() implies (#[trigger] listed[k]).name
            != proxies.last().0 by {
            assert(listed.contains(listed[k]));
            let i = choose|i: int|
                0 <= i < front.len() && (#[trigger] front[i]).1.visible() && group_of(front[i])
                    == listed[k];
            assert(proxies[i] == front[i]);
        }
    }
}

/// Where no two proxies share a name, the names of the listed groups ascend strictly.
pub proof fn listed_names_ascend(proxies: Seq<(Seq<char>, ProxyView)>, groups: Seq<GroupView>)
    requires
        forall|i: int, j: int|
            0 <= i < j < proxies.len() ==> (#[trigger] proxies[i]).0 != (#[trigger] proxies[j]).0,
        lists_groups(proxies, groups),
    ensures
        strictly_sorted_by_name(groups),
        forall|i: int, j: int|
            0 <= i < j < groups.len() ==> text_less(
                (#[trigger] groups[i]).name,
                (#[trigger] groups[j]).name,
            ),
{
    let visible = visible_groups(proxies);
    lemma_visible_groups_distinct(proxies);
    assert forall|i: int, j: int| 0 <= i < j < groups.len() implies text_less(
        #[trigger] groups[i].name,
        #[trigger] groups[j].name,
    ) by {
        text_order_is_total(groups[i].name, groups[j].name);
        if groups[i].name == groups[j].name {
            vstd::seq_lib::to_multiset_contains(groups, groups[i]);
            vstd::seq_lib::to_multiset_contains(groups, groups[j]);
            vstd::seq_lib::to_multiset_contains(visible, groups[i]);
            vstd::seq_lib::to_multiset_contains(visible, groups[j]);
            assert(groups[i] == groups[j]);
            lemma_distinct_counts(visible);
            lemma_repeated_counts(groups, i, j);
        }
    }
}

proof fn lemma_distinct_counts(groups: Seq<GroupView>)
    requires
        forall|i: int, j: int|
            0 <= i < groups.len() && 0 <= j < groups.len() && i != j ==> (
            #[trigger] groups[i]).name != (#[trigger] groups[j]).name,
    ensures
        forall|group: GroupView| groups.to_multiset().count(group) <= 1,
{
    assert(groups.no_duplicates());
    groups.lemma_multiset_has_no_duplicates();
    assert forall|group: GroupView| groups.to_multiset().count(group) <= 1 by {
        if groups.to_multiset().count(group) > 0 {
            assert(groups.to_multiset().contains(group));
        }
    }
}

proof fn lemma_repeated_counts(groups: Seq<GroupView>, i: int, j: int)
    requires
        0 <= i < j < groups.len(),
        groups[i] == groups[j],
    ensures
        groups.to_multiset().count(groups[i]) >= 2,
{
    let rest = groups.remove(j);
    vstd::seq_lib::to_multiset_remove(groups, j);
    assert(rest[i] == groups[i]);
    vstd::seq_lib::to_multiset_contains(rest, groups[i]);
    vstd::seq_lib::to_multiset_contains(groups, groups[i]);
}

proof fn lemma_visible_groups_permuted(
    a: Seq<(Seq<char>, ProxyView)>,
    b: Seq<(Seq<char>, ProxyView)>,
)
    requires
        a.to_multiset() == b.to_multiset(),
    ensures
        visible_groups(a).to_multiset() == visible_groups(b).to_multiset(),
    decreases a.len(),
{
    vstd::seq_lib::to_multiset_len(a);
    vstd::seq_lib::to_multiset_len(b);
    if a.len() == 0 {
        assert(a =~= b);
    } else {
        let n = a.len() - 1;
        let entry = a.last();
        vstd::seq_lib::to_multiset_contains(a, entry);
        vstd::seq_lib::to_multiset_contains(b, entry);
        assert(a[n] == entry);
        let j = choose|j: int| 0 <= j < b.len() && b[j] == entry;
        let front = b.take(j);
        let back = b.skip(j + 1);
        vstd::seq_lib::to_multiset_remove(a, n);
        vstd::seq_lib::to_multiset_remove(b, j);
        assert(a.remove(n) =~= a.drop_last());
        assert(b.remove(j) =~= front + back);
        lemma_visible_groups_permuted(a.drop_last(), front + back);
        lemma_visible_groups_split(front, back);
        assert(b =~= front.push(entry) + back);
        lemma_visible_groups_split(front.push(entry), back);
        assert(front.push(entry).drop_last() =~= front);
        let (x, y) = (visible_groups(front), visible_groups(back));
        if entry.1.visible() {
            let group = group_of(entry);
            vstd::seq_lib::to_multiset_build(visible_groups(a.drop_last()), group);
            vstd::seq_lib::to_multiset_insert(x + y, x.len() as int, group);
            assert((x + y).insert(x.len() as int, group) =~= x.push(group) + y);
        }
    }
}

proof fn lemma_sorted_groups_unique(a: Seq<GroupView>, b: Seq<GroupView>)
    requires
        strictly_sorted_by_name(a),
        strictly_sorted_by_name(b),
        a.to_multiset() == b.to_multiset(),
    ensures
        a == b,
    decreases a.len(),
{
    vstd::seq_lib::to_multiset_len(a);
    vstd::seq_lib::to_multiset_len(b);
    if a.len() == 0 {
        assert(a =~= b);
    } else {
        vstd::seq_lib::to_multiset_contains(a, a[0]);
        vstd::seq_lib::to_multiset_contains(b, a[0]);
        vstd::seq_lib::to_multiset_contains(a, b[0]);
        vstd::seq_lib::to_multiset_contains(b, b[0]);
        let j = choose|j: int| 0 <= j < b.len() && b[j] == a[0];
        let i = choose|i: int| 0 <= i < a.len() && a[i] == b[0];
        if j > 0 && i > 0 {
            assert(text_less(b[0].name, b[j].name));
            assert(text_less(a[0].name, a[i].name));
            text_order_is_strict(a[0].name, b[0].name, a[0].name);
        }
        assert(a[0] == b[0]);
        vstd::seq_lib::to_multiset_remove(a, 0);
        vstd::seq_lib::to_multiset_remove(b, 0);
        lemma_sorted_groups_unique(a.remove(0), b.remove(0));
        assert(a =~= seq![a[0]] + a.remove(0));
        assert(b =~= seq![b[0]] + b.remove(0));
    }
}

/// The order of the list is stable: two reports with the same proxies, whatever order these come
/// in, give the same list.
pub proof fn group_order_is_stable(
    first: Seq<(Seq<char>, ProxyView)>,
    second: Seq<(Seq<char>, ProxyView)>,
    first_groups: Seq<GroupView>,
    second_groups: Seq<GroupView>,
)
    requires
        forall|i: int, j: int|
            0 <= i < j < first.len() ==> (#[trigger] first[i]).0 != (#[trigger] first[j]).0,
        first.to_multiset() == second.to_multiset(),
        lists_groups(first, first_groups),
        lists_groups(second, second_groups),
    ensures
        first_groups == second_groups,
{
    lemma_visible_groups_permuted(first, second);
    listed_names_ascend(first, first_groups);
    listed_names_ascend(first, second_groups);
    lemma_sorted_groups_unique(first_groups, second_groups);
}

/// The mode's names: the menu's begins with a capital, the controller's is in lower case.
pub proof fn modes_go_by_their_names(mode: Mode)
    ensures
        mode is Rule ==> mode.label_text() == "Rule"@ && mode.wire_text() == "rule"@,
        mode is Direct ==> mode.label_text() == "Direct"@ && mode.wire_text() == "direct"@,
        mode is Global ==> mode.label_text() == "Global"@ && mode.wire_text() == "global"@,
{
}

/// The modes stand in the menu in this order.
pub proof fn modes_stand_in_order(mode: Mode)
    ensures
        mode is Rule ==> mode.rank() == 0,
        mode is Direct ==> mode.rank() == 1,
        mode is Global ==> mode.rank() == 2,
        Mode::ALL@ == seq![Mode::Rule, Mode::Direct, Mode::Global],
{
    assert(Mode::ALL@ =~= seq![Mode::Rule, Mode::Direct, Mode::Global]);
}

/// The views of what the kernel reports hold all of it, unchanged and in order.
pub proof fn reports_are_seen_whole(group: Group, proxy: Proxy, rule: Rule)
    ensures
        group@.name == group.name@,
        group@.now is None <==> group.now is None,
        group.now matches Some(now) ==> group@.now == Some(now@),
        group@.nodes.len() == group.nodes@.len(),
        forall|i: int|
            0 <= i < group.nodes@.len() ==> #[trigger] group@.nodes[i] == group.nodes@[i]@,
        proxy@.now is None <==> proxy.now is None,
        proxy.now matches Some(now) ==> proxy@.now == Some(now@),
        proxy@.hidden == proxy.hidden,
        proxy@.all.len() == proxy.all@.len(),
        forall|i: int| 0 <= i < proxy.all@.len() ==> #[trigger] proxy@.all[i] == proxy.all@[i]@,
        rule@.index == rule.index,
        rule@.kind == rule.kind@,
        rule@.payload == rule.payload@,
        rule@.proxy == rule.proxy@,
        rule@.disabled == rule.extra.disabled,
{
}

/// Lists are seen entry by entry.
pub proof fn lists_are_seen_whole(
    groups: Seq<Group>,
    rules: Seq<Rule>,
    proxies: Seq<(String, Proxy)>,
)
    ensures
        group_views(groups).len() == groups.len(),
        forall|i: int| 0 <= i < groups.len() ==> #[trigger] group_views(groups)[i] == groups[i]@,
        rule_views(rules).len() == rules.len(),
        forall|i: int| 0 <= i < rules.len() ==> #[trigger] rule_views(rules)[i] == rules[i]@,
        report(proxies).len() == proxies.len(),
        forall|i: int|
            0 <= i < proxies.len() ==> #[trigger] report(proxies)[i] == (
                proxies[i].0@,
                proxies[i].1@,
            ),
{
}

/// No group is listed ahead of one that comes before it in the order of names.
pub proof fn listed_groups_are_in_order(
    proxies: Seq<(Seq<char>, ProxyView)>,
    groups: Seq<GroupView>,
    i: int,
    j: int,
)
    requires
        lists_groups(proxies, groups),
        0 <= i < j < groups.len(),
    ensures
        !text_less(groups[j].name, groups[i].name),
{
}

/// A rule reads from its kind to its target, with the payload between them where there is one.
pub proof fn a_rule_reads_from_kind_to_target(rule: RuleView)
    ensures
        rule.kind.is_prefix_of(rule.text()),
        (" → "@ + rule.proxy).is_suffix_of(rule.text()),
        rule.payload.len() == 0 ==> rule.text().len() == rule.kind.len() + (" → "@
            + rule.proxy).len(),
        rule.payload.len() > 0 ==> {
            &&& rule.text().len() == rule.kind.len() + 1 + rule.payload.len() + (" → "@
                + rule.proxy).len()
            &&& rule.text()[rule.kind.len() as int] == ' '
            &&& rule.text().skip(rule.kind.len() as int + 1).take(rule.payload.len() as int)
                == rule.payload
        },
{
    reveal_strlit(" ");
    let text = rule.text();
    let tail = " → "@ + rule.proxy;
    assert(text.subrange(0, rule.kind.len() as int) =~= rule.kind);
    assert(text.subrange(text.len() - tail.len(), text.len() as int) =~= tail);
    if rule.payload.len() > 0 {
        assert(text.skip(rule.kind.len() as int + 1).take(rule.payload.len() as int)
            =~= rule.payload);
    }
}

/// The selection of a group is the first node named like the current one, and the first of all
/// where no node is.
pub proof fn the_selection_is_the_first_match(group: GroupView)
    ensures
        group.now is None ==> group.selection() == 0,
        group.now matches Some(now) ==> if exists|i: int|
            0 <= i < group.nodes.len() && #[trigger] group.nodes[i] == now {
            &&& 0 <= group.selection() < group.nodes.len()
            &&& group.nodes[group.selection()] == now
            &&& forall|i: int| 0 <= i < group.selection() ==> #[trigger] group.nodes[i] != now
        } else {
            group.selection() == 0
        },
{
    if let Some(now) = group.now {
        group.nodes.index_of_first_ensures(now);
        if exists|i: int| 0 <= i < group.nodes.len() && #[trigger] group.nodes[i] == now {
            assert(group.nodes.contains(now));
        }
    }
}

/// Only a missing value is replaced: one that is there is kept as it is.
pub proof fn only_a_missing_value_is_replaced<T: Default>(value: Option<T>, result: T)
    requires
        stands_for(value, result),
    ensures
        value is Some ==> Some(result) == value,
        value is None ==> call_ensures(T::default, (), result),
{
}

} // verus!
