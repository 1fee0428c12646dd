//! The display of the merged tasks: the priority bucket, the groups by
//! tag, and the lines in which both are shown.

use vstd::prelude::*;
use vstd::string::*;
use crate::aggregate::{
    failure_views, failures_of, merge, merged_issues, Fetched, PartialAggregationFailure,
};
use crate::color::{color_named, is_color_name};
use crate::config::{AppConfig, Colors, TaskIssueProvider};
use crate::providers::common::model::Issue;
use crate::text::{
    contains_text, join, join_with, lemma_lex_irreflexive, lemma_sorted_list_exists, lex_lt,
    same_text, sorted_distinct, sorted_list, strictly_sorted, views,
};

verus! {

/// The tasks that a list of borrowed tasks points to.
pub open spec fn pointees(s: Seq<&Issue>) -> Seq<Issue> {
    s.map_values(|i: &Issue| *i)
}

/// A task is a priority when one of its tags is a priority label.
pub open spec fn has_priority_tag(issue: Issue, labels: Seq<Seq<char>>) -> bool {
    exists|k: int|
        0 <= k < issue.tag_names().len() && labels.contains(#[trigger] issue.tag_names()[k])
}

/// The tasks that are a priority.
pub open spec fn is_priority(labels: Seq<Seq<char>>) -> spec_fn(Issue) -> bool {
    |i: Issue| has_priority_tag(i, labels)
}

/// The priority bucket: every task with a priority tag, in the order of
/// `issues`.
pub open spec fn priority_bucket(issues: Seq<Issue>, labels: Seq<Seq<char>>) -> Seq<Issue> {
    issues.filter(is_priority(labels))
}

/// The texts that are no priority label.
pub open spec fn is_no_priority_label(labels: Seq<Seq<char>>) -> spec_fn(Seq<char>) -> bool {
    |t: Seq<char>| !labels.contains(t)
}

/// The tags of a task that are no priority label.
pub open spec fn nonpriority_tags(issue: Issue, labels: Seq<Seq<char>>) -> Seq<Seq<char>> {
    issue.tag_names().filter(is_no_priority_label(labels))
}

/// The key of the group that a task belongs to: its tags that are no
/// priority label, each once, in order, with `, ` between them; and
/// `<no labels>` for a task without such a tag.
pub open spec fn group_key(issue: Issue, labels: Seq<Seq<char>>) -> Seq<char> {
    let tags = nonpriority_tags(issue, labels);
    if tags.len() == 0 {
        "<no labels>"@
    } else {
        join(sorted_list(tags.to_set()), ", "@)
    }
}

/// A task belongs to the group `key` when it is no priority and `key` is
/// its group key. A priority task belongs to no group.
pub open spec fn in_group(issue: Issue, labels: Seq<Seq<char>>, key: Seq<char>) -> bool {
    !has_priority_tag(issue, labels) && group_key(issue, labels) == key
}

/// The tasks that belong to the group `key`.
pub open spec fn is_member(labels: Seq<Seq<char>>, key: Seq<char>) -> spec_fn(Issue) -> bool {
    |i: Issue| in_group(i, labels, key)
}

/// The tasks of the group `key`, in the order of `issues`.
pub open spec fn group_of(issues: Seq<Issue>, labels: Seq<Seq<char>>, key: Seq<char>) -> Seq<
    Issue,
> {
    issues.filter(is_member(labels, key))
}

/// The keys of the groups that are not empty.
pub open spec fn group_key_set(issues: Seq<Issue>, labels: Seq<Seq<char>>) -> Set<Seq<char>> {
    Set::new(
        |key: Seq<char>|
            exists|i: int| 0 <= i < issues.len() && in_group(#[trigger] issues[i], labels, key),
    )
}

/// The sorted keys `k` with the key `p` moved to the front, where `k` holds
/// it.
pub open spec fn promote(k: Seq<Seq<char>>, p: Seq<char>) -> Seq<Seq<char>> {
    if k.contains(p) {
        seq![p] + k.remove(k.index_of(p))
    } else {
        k
    }
}

/// The order in which the groups are shown: by key, except that the key
/// `priority` comes first.
pub open spec fn group_order(issues: Seq<Issue>, labels: Seq<Seq<char>>) -> Seq<Seq<char>> {
    promote(sorted_list(group_key_set(issues, labels)), "priority"@)
}

/// Whether one of the tags of `issue` is a priority label.
pub fn issue_has_priority(issue: &Issue, priority_labels: &Vec<String>) -> (r: bool)
    ensures
        r == has_priority_tag(*issue, views(priority_labels@)),
{
    let mut k: usize = 0;
    while k < issue.tags.len()
        invariant
            k <= issue.tags.len(),
            forall|q: int|
                0 <= q < k ==> !views(priority_labels@).contains(#[trigger] issue.tag_names()[q]),
        decreases issue.tags.len() - k,
    {
        if contains_text(priority_labels, issue.tags[k].name.as_str()) {
            assert(issue.tag_names()[k as int] == issue.tags[k as int].name@);
            return true;
        }
        assert(issue.tag_names()[k as int] == issue.tags[k as int].name@);
        k = k + 1;
    }
    false
}

/// The priority bucket: every task with at least one priority label among
/// its tags, in the order of `issues`.
pub fn group_tasks_by_priority_labels<'a>(
    issues: &'a Vec<Issue>,
    priority_labels: &Vec<String>,
) -> (bucket: Vec<&'a Issue>)
    ensures
        pointees(bucket@) == priority_bucket(issues@, views(priority_labels@)),
{
    let ghost labels = views(priority_labels@);
    let mut bucket: Vec<&'a Issue> = Vec::new();
    let mut n: usize = 0;
    proof {
        reveal(Seq::filter);
        assert(pointees(bucket@) =~= priority_bucket(issues@.take(0), labels));
    }
    while n < issues.len()
        invariant
            n <= issues.len(),
            labels == views(priority_labels@),
            pointees(bucket@) == priority_bucket(issues@.take(n as int), labels),
        decreases issues.len() - n,
    {
        let ghost before = pointees(bucket@);
        proof {
            assert(issues@.take(n + 1) == issues@.take(n as int).push(issues@[n as int]));
            issues@.take(n as int).lemma_filter_push(issues@[n as int], is_priority(labels));
        }
        if issue_has_priority(&issues[n], priority_labels) {
            bucket.push(&issues[n]);
            assert(pointees(bucket@) =~= before.push(issues@[n as int]));
        }
        n = n + 1;
    }
    assert(issues@.take(n as int) == issues@);
    bucket
}

/// The tags of `issue` that are no priority label, in their order.
fn nonpriority_tag_names(issue: &Issue, priority_labels: &Vec<String>) -> (tags: Vec<String>)
    ensures
        views(tags@) == nonpriority_tags(*issue, views(priority_labels@)),
{
    let ghost labels = views(priority_labels@);
    let ghost names = issue.tag_names();
    let mut tags: Vec<String> = Vec::new();
    let mut k: usize = 0;
    proof {
        reveal(Seq::filter);
        assert(views(tags@) =~= names.take(0).filter(is_no_priority_label(labels)));
    }
    while k < issue.tags.len()
        invariant
            k <= issue.tags.len(),
            labels == views(priority_labels@),
            names == issue.tag_names(),
            views(tags@) == names.take(k as int).filter(is_no_priority_label(labels)),
        decreases issue.tags.len() - k,
    {
        let ghost before = views(tags@);
        proof {
            assert(names.take(k + 1) == names.take(k as int).push(names[k as int]));
            names.take(k as int).lemma_filter_push(names[k as int], is_no_priority_label(labels));
            assert(names[k as int] == issue.tags[k as int].name@);
        }
        if !contains_text(priority_labels, issue.tags[k].name.as_str()) {
            tags.push(issue.tags[k].name.clone());
            assert(views(tags@) =~= before.push(names[k as int]));
        }
        k = k + 1;
    }
    assert(names.take(k as int) == names);
    tags
}

/// The key of the group that `issue` belongs to.
pub fn group_key_of(issue: &Issue, priority_labels: &Vec<String>) -> (key: String)
    ensures
        key@ == group_key(*issue, views(priority_labels@)),
{
    let tags = nonpriority_tag_names(issue, priority_labels);
    if tags.len() == 0 {
        String::from_str("<no labels>")
    } else {
        let sorted = sorted_distinct(&tags);
        join_with(&sorted, ", ")
    }
}

/// One group of the display: its key and its tasks.
#[derive(Debug, Clone)]
pub struct TagGroup<'a> {
    pub key: String,
    pub issues: Vec<&'a Issue>,
}

/// What the key computed for a task says of it: its group, or that it is a
/// priority and has none.
spec fn key_matches(key: Option<String>, issue: Issue, labels: Seq<Seq<char>>) -> bool {
    match key {
        Some(k) => in_group(issue, labels, k@),
        None => has_priority_tag(issue, labels),
    }
}

/// The group key of each task, `None` for a priority task, and beside it
/// the keys that occur.
fn keys_of_issues(issues: &Vec<Issue>, priority_labels: &Vec<String>) -> (r: (
    Vec<Option<String>>,
    Vec<String>,
))
    ensures
        r.0.len() == issues.len(),
        forall|i: int|
            0 <= i < issues.len() ==> key_matches(
                #[trigger] r.0[i],
                issues[i],
                views(priority_labels@),
            ),
        views(r.1@).to_set() == group_key_set(issues@, views(priority_labels@)),
{
    let ghost labels = views(priority_labels@);
    let mut keys: Vec<Option<String>> = Vec::new();
    let mut present: Vec<String> = Vec::new();
    let mut n: usize = 0;
    assert(views(present@).to_set() =~= group_key_set(issues@.take(0), labels));
    while n < issues.len()
        invariant
            n <= issues.len(),
            labels == views(priority_labels@),
            keys.len() == n,
            forall|i: int| 0 <= i < n ==> key_matches(#[trigger] keys[i], issues[i], labels),
            views(present@).to_set() == group_key_set(issues@.take(n as int), labels),
        decreases issues.len() - n,
    {
        let ghost prefix = issues@.take(n as int);
        let ghost next = issues@.take(n + 1);
        let ghost before = views(present@);
        if issue_has_priority(&issues[n], priority_labels) {
            keys.push(None);
            proof {
                assert forall|key: Seq<char>| group_key_set(next, labels).contains(key)
                    == group_key_set(prefix, labels).contains(key) by {
                    if group_key_set(next, labels).contains(key) {
                        let i = choose|i: int|
                            0 <= i < next.len() && in_group(#[trigger] next[i], labels, key);
                        assert(in_group(prefix[i], labels, key));
                    }
                    if group_key_set(prefix, labels).contains(key) {
                        let i = choose|i: int|
                            0 <= i < prefix.len() && in_group(#[trigger] prefix[i], labels, key);
                        assert(in_group(next[i], labels, key));
                    }
                }
                assert(group_key_set(next, labels) =~= group_key_set(prefix, labels));
            }
        } else {
            let key = group_key_of(&issues[n], priority_labels);
            present.push(key.clone());
            proof {
                assert(views(present@) =~= before.push(key@));
                before.lemma_push_to_set_commute(key@);
                assert forall|k: Seq<char>| group_key_set(next, labels).contains(k)
                    == group_key_set(prefix, labels).insert(key@).contains(k) by {
                    if group_key_set(next, labels).contains(k) {
                        let i = choose|i: int|
                            0 <= i < next.len() && in_group(#[trigger] next[i], labels, k);
                        if i < n {
                            assert(in_group(prefix[i], labels, k));
                        }
                    }
                    if group_key_set(prefix, labels).contains(k) {
                        let i = choose|i: int|
                            0 <= i < prefix.len() && in_group(#[trigger] prefix[i], labels, k);
                        assert(in_group(next[i], labels, k));
                    }
                    if k == key@ {
                        assert(in_group(next[n as int], labels, k));
                    }
                }
                assert(group_key_set(next, labels) =~= group_key_set(prefix, labels).insert(key@));
            }
            keys.push(Some(key));
        }
        n = n + 1;
    }
    assert(issues@.take(n as int) == issues@);
    (keys, present)
}

/// Moves the key `p` to the front of the sorted keys `k`, where `k` holds
/// it.
fn promote_key(k: &mut Vec<String>, p: &str)
    requires
        strictly_sorted(views(old(k)@)),
    ensures
        views(final(k)@) == promote(views(old(k)@), p@),
{
    let ghost o = views(k@);
    let mut i: usize = 0;
    while i < k.len()
        invariant
            i <= k.len(),
            k@ == old(k)@,
            o == views(k@),
            strictly_sorted(o),
            forall|q: int| 0 <= q < i ==> o[q] != p@,
        decreases k.len() - i,
    {
        if same_text(k[i].as_str(), p) {
            let x = k.remove(i);
            k.insert(0, x);
            proof {
                assert(o[i as int] == p@);
                let c = o.index_of(p@);
                assert(0 <= c < o.len() && o[c] == p@);
                if c != i {
                    lemma_lex_irreflexive(p@);
                    if c < i {
                        assert(lex_lt(o[c], o[i as int]));
                    } else {
                        assert(lex_lt(o[i as int], o[c]));
                    }
                }
                assert(views(k@) =~= seq![p@] + o.remove(i as int));
            }
            return;
        }
        i = i + 1;
    }
    assert(!o.contains(p@));
}

/// The tasks whose computed key is `key`, in the order of `issues`.
fn members_of<'a>(
    issues: &'a Vec<Issue>,
    keys: &Vec<Option<String>>,
    key: &str,
    Ghost(labels): Ghost<Seq<Seq<char>>>,
) -> (members: Vec<&'a Issue>)
    requires
        keys.len() == issues.len(),
        forall|i: int| 0 <= i < issues.len() ==> key_matches(#[trigger] keys[i], issues[i], labels),
    ensures
        pointees(members@) == group_of(issues@, labels, key@),
{
    let mut members: Vec<&'a Issue> = Vec::new();
    let mut n: usize = 0;
    proof {
        reveal(Seq::filter);
        assert(pointees(members@) =~= group_of(issues@.take(0), labels, key@));
    }
    while n < issues.len()
        invariant
            n <= issues.len(),
            keys.len() == issues.len(),
            forall|i: int|
                0 <= i < issues.len() ==> key_matches(#[trigger] keys[i], issues[i], labels),
            pointees(members@) == group_of(issues@.take(n as int), labels, key@),
        decreases issues.len() - n,
    {
        let ghost before = pointees(members@);
        proof {
            assert(issues@.take(n + 1) == issues@.take(n as int).push(issues@[n as int]));
            issues@.take(n as int).lemma_filter_push(issues@[n as int], is_member(labels, key@));
            assert(key_matches(keys[n as int], issues[n as int], labels));
        }
        let is_in = match &keys[n] {
            Some(k) => same_text(k.as_str(), key),
            None => false,
        };
        if is_in {
            members.push(&issues[n]);
            assert(pointees(members@) =~= before.push(issues@[n as int]));
        }
        n = n + 1;
    }
    assert(issues@.take(n as int) == issues@);
    members
}

/// The groups of the tasks that are no priority, one group for each key
/// that occurs, in the order in which they are shown: by key, except that
/// the key `priority` comes first. Each group holds its tasks in the order
/// of `issues`.
pub fn group_tasks_by_labels<'a>(issues: &'a Vec<Issue>, priority_labels: &Vec<String>) -> (groups:
    Vec<TagGroup<'a>>)
    ensures
        groups.len() == group_order(issues@, views(priority_labels@)).len(),
        forall|g: int|
            0 <= g < groups.len() ==> {
                &&& (#[trigger] groups[g]).key@ == group_order(issues@, views(priority_labels@))[g]
                &&& pointees(groups[g].issues@) == group_of(
                    issues@,
                    views(priority_labels@),
                    groups[g].key@,
                )
            },
{
    let ghost labels = views(priority_labels@);
    let (keys, present) = keys_of_issues(issues, priority_labels);
    let mut order = sorted_distinct(&present);
    promote_key(&mut order, "priority");
    assert(views(order@) == group_order(issues@, labels));
    let mut groups: Vec<TagGroup<'a>> = Vec::new();
    let mut g: usize = 0;
    while g < order.len()
        invariant
            g <= order.len(),
            groups.len() == g,
            labels == views(priority_labels@),
            views(order@) == group_order(issues@, labels),
            keys.len() == issues.len(),
            forall|i: int|
                0 <= i < issues.len() ==> key_matches(#[trigger] keys[i], issues[i], labels),
            forall|h: int|
                0 <= h < g ==> {
                    &&& (#[trigger] groups[h]).key@ == group_order(issues@, labels)[h]
                    &&& pointees(groups[h].issues@) == group_of(issues@, labels, groups[h].key@)
                },
        decreases order.len() - g,
    {
        let members = members_of(issues, &keys, order[g].as_str(), Ghost(labels));
        assert(views(order@)[g as int] == order[g as int]@);
        groups.push(TagGroup { key: order[g].clone(), issues: members });
        g = g + 1;
    }
    groups
}

/// Which of the configured colours a piece of a line is shown in.
#[derive(Debug, Clone, Copy, PartialEq, Eq, Structural)]
pub enum Tone {
    /// No colour.
    Plain,
    /// The colour of task ids.
    IssueId,
    /// The colour of titles.
    Title,
    /// The colour of tags.
    Tags,
}

/// A piece of a line: its text and the colour it is shown in.
#[derive(Debug, Clone)]
pub struct Span {
    pub text: String,
    pub tone: Tone,
}

/// A span as a value: the characters of its text and its tone.
pub struct SpanView {
    pub text: Seq<char>,
    pub tone: Tone,
}

impl View for Span {
    type V = SpanView;

    open spec fn view(&self) -> SpanView {
        SpanView { text: self.text@, tone: self.tone }
    }
}

/// One line of the display, as the pieces it is made of.
#[derive(Debug, Clone)]
pub struct Line {
    pub spans: Vec<Span>,
}

impl View for Line {
    type V = Seq<SpanView>;

    open spec fn view(&self) -> Seq<SpanView> {
        self.spans@.map_values(|s: Span| s@)
    }
}

/// The lines as values.
pub open spec fn line_views(lines: Seq<Line>) -> Seq<Seq<SpanView>> {
    lines.map_values(|l: Line| l@)
}

/// The text of a line: the texts of its spans, one after the other.
pub open spec fn line_text(spans: Seq<SpanView>) -> Seq<char>
    decreases spans.len(),
{
    if spans.len() == 0 {
        Seq::empty()
    } else {
        line_text(spans.drop_last()) + spans.last().text
    }
}

/// The span with the given text and tone.
pub open spec fn span(text: Seq<char>, tone: Tone) -> SpanView {
    SpanView { text, tone }
}

/// The tags of a task as they are shown: in brackets, with `, ` between
/// them, in the order in which the task holds them.
pub open spec fn tags_text(issue: Issue) -> Seq<char> {
    "("@ + join(issue.tag_names(), ", "@) + ")"@
}

/// What follows the tags of a task: nothing, or with `all` the address of
/// the task.
pub open spec fn details_text(issue: Issue, all: bool) -> Seq<char> {
    if all {
        " - "@ + issue.html_url@
    } else {
        Seq::empty()
    }
}

/// The line of one task: ` - `, its id, its title, its tags and its
/// details.
pub open spec fn issue_line(issue: Issue, all: bool) -> Seq<SpanView> {
    seq![
        span(" - "@, Tone::Plain),
        span(issue.id@, Tone::IssueId),
        span(" "@, Tone::Plain),
        span(issue.title@, Tone::Title),
        span(" "@, Tone::Plain),
        span(tags_text(issue), Tone::Tags),
        span(details_text(issue, all), Tone::Plain),
    ]
}

/// The lines of the tasks `rows`, in their order.
pub open spec fn issue_lines(rows: Seq<Issue>, all: bool) -> Seq<Seq<SpanView>> {
    rows.map_values(|i: Issue| issue_line(i, all))
}

/// The line under a heading: forty dashes.
pub open spec fn divider() -> Seq<SpanView> {
    seq![span("----------------------------------------"@, Tone::Plain)]
}

/// The heading of the priority bucket. It names the priority labels, each
/// of them once, in order, with `, ` between them: the labels are a set.
pub open spec fn priority_heading(labels: Seq<Seq<char>>) -> Seq<SpanView> {
    seq![
        span("Priority: "@, Tone::Plain),
        span(join(sorted_list(labels.to_set()), ", "@), Tone::Tags),
    ]
}

/// The heading of the group `key`.
pub open spec fn tag_heading(key: Seq<char>) -> Seq<SpanView> {
    seq![span("Tag: "@, Tone::Plain), span(key, Tone::Tags)]
}

/// A section of the display: its heading, a divider, its tasks and an
/// empty line.
pub open spec fn section(heading: Seq<SpanView>, rows: Seq<Issue>, all: bool) -> Seq<
    Seq<SpanView>,
> {
    seq![heading, divider()] + issue_lines(rows, all) + seq![Seq::<SpanView>::empty()]
}

/// The sections of the groups `keys`, in their order: one section for each
/// key.
pub open spec fn tag_sections(
    issues: Seq<Issue>,
    labels: Seq<Seq<char>>,
    keys: Seq<Seq<char>>,
    all: bool,
) -> Seq<Seq<SpanView>>
    decreases keys.len(),
{
    if keys.len() == 0 {
        Seq::empty()
    } else {
        tag_sections(issues, labels, keys.drop_last(), all) + section(
            tag_heading(keys.last()),
            group_of(issues, labels, keys.last()),
            all,
        )
    }
}

/// The whole display: the section of the priority bucket, which is there
/// even when the bucket is empty, and after it the sections of the groups.
pub open spec fn table(issues: Seq<Issue>, labels: Seq<Seq<char>>, all: bool) -> Seq<
    Seq<SpanView>,
> {
    section(priority_heading(labels), priority_bucket(issues, labels), all) + tag_sections(
        issues,
        labels,
        group_order(issues, labels),
        all,
    )
}

impl Line {
    /// The text of the line without its colours.
    pub fn text(&self) -> (s: String)
        ensures
            s@ == line_text(self@),
    {
        let mut s = String::new();
        let mut i: usize = 0;
        while i < self.spans.len()
            invariant
                i <= self.spans.len(),
                s@ == line_text(self@.take(i as int)),
            decreases self.spans.len() - i,
        {
            proof {
                let next = self@.take(i + 1);
                assert(next.drop_last() == self@.take(i as int));
                assert(next.last().text == self.spans@[i as int].text@);
            }
            s.append(self.spans[i].text.as_str());
            i = i + 1;
        }
        assert(self@.take(i as int) == self@);
        s
    }
}

/// The span with the text of `text` and the tone `tone`.
fn make_span(text: &str, tone: Tone) -> (s: Span)
    ensures
        s@ == span(text@, tone),
{
    Span { text: String::from_str(text), tone }
}

/// The names of the tags of `issue`, in the order in which it holds them.
fn tag_names_of(issue: &Issue) -> (names: Vec<String>)
    ensures
        views(names@) == issue.tag_names(),
{
    let mut names: Vec<String> = Vec::new();
    let mut k: usize = 0;
    while k < issue.tags.len()
        invariant
            k <= issue.tags.len(),
            names.len() == k,
            forall|q: int| 0 <= q < k ==> (#[trigger] names[q])@ == issue.tags[q].name@,
        decreases issue.tags.len() - k,
    {
        names.push(issue.tags[k].name.clone());
        k = k + 1;
    }
    assert(views(names@) =~= issue.tag_names());
    names
}

/// The line of one task.
fn line_of_issue(issue: &Issue, all: bool) -> (line: Line)
    ensures
        line@ == issue_line(*issue, all),
{
    let names = tag_names_of(issue);
    let mut tags = String::from_str("(");
    tags.append(join_with(&names, ", ").as_str());
    tags.append(")");
    let mut details = String::new();
    if all {
        details.append(" - ");
        details.append(issue.html_url.as_str());
    }
    let mut spans: Vec<Span> = Vec::new();
    spans.push(make_span(" - ", Tone::Plain));
    spans.push(make_span(issue.id.as_str(), Tone::IssueId));
    spans.push(make_span(" ", Tone::Plain));
    spans.push(make_span(issue.title.as_str(), Tone::Title));
    spans.push(make_span(" ", Tone::Plain));
    spans.push(Span { text: tags, tone: Tone::Tags });
    spans.push(Span { text: details, tone: Tone::Plain });
    let line = Line { spans };
    assert(details@ =~= details_text(*issue, all));
    assert(line@ =~= issue_line(*issue, all));
    line
}

/// The line made of a plain `label` and of `text` in the colour of tags.
fn heading_line(label: &str, text: &str) -> (line: Line)
    ensures
        line@ == seq![span(label@, Tone::Plain), span(text@, Tone::Tags)],
{
    let mut spans: Vec<Span> = Vec::new();
    spans.push(make_span(label, Tone::Plain));
    spans.push(make_span(text, Tone::Tags));
    let line = Line { spans };
    assert(line@ =~= seq![span(label@, Tone::Plain), span(text@, Tone::Tags)]);
    line
}

/// Appends a section to `out`.
fn push_section(out: &mut Vec<Line>, heading: Line, rows: &Vec<&Issue>, all: bool)
    ensures
        line_views(final(out)@) == line_views(old(out)@) + section(
            heading@,
            pointees(rows@),
            all,
        ),
{
    let ghost before = line_views(out@);
    let ghost head = heading@;
    let ghost tasks = pointees(rows@);
    out.push(heading);
    let mut dashes: Vec<Span> = Vec::new();
    dashes.push(make_span("----------------------------------------", Tone::Plain));
    let rule = Line { spans: dashes };
    assert(rule@ =~= divider());
    out.push(rule);
    assert(line_views(out@) =~= before + seq![head, divider()] + issue_lines(tasks.take(0), all));
    let mut i: usize = 0;
    while i < rows.len()
        invariant
            i <= rows.len(),
            tasks == pointees(rows@),
            line_views(out@) == before + seq![head, divider()] + issue_lines(
                tasks.take(i as int),
                all,
            ),
        decreases rows.len() - i,
    {
        let ghost so_far = line_views(out@);
        let line = line_of_issue(rows[i], all);
        out.push(line);
        proof {
            assert(line_views(out@) =~= so_far.push(issue_line(tasks[i as int], all)));
            assert(issue_lines(tasks.take(i + 1), all) =~= issue_lines(tasks.take(i as int), all).push(
                issue_line(tasks[i as int], all),
            ));
        }
        i = i + 1;
    }
    let ghost so_far = line_views(out@);
    let blank = Line { spans: Vec::new() };
    assert(blank@ =~= Seq::<SpanView>::empty());
    out.push(blank);
    proof {
        assert(tasks.take(i as int) == tasks);
        assert(line_views(out@) =~= so_far.push(Seq::<SpanView>::empty()));
        assert(line_views(out@) =~= before + section(head, tasks, all));
    }
}

/// The display of the tasks as lines.
///
/// First comes the section of the priority bucket, whose heading names the
/// priority labels and which is there even when no task is a priority.
/// Then comes one section for each group of the other tasks, by key, the
/// key `priority` first. With `all` each task is followed by its address.
pub fn display_tasks_in_table(
    issues: &Vec<Issue>,
    priority_labels: &Vec<String>,
    all: bool,
) -> (lines:
    Vec<Line>)
    ensures
        line_views(lines@) == table(issues@, views(priority_labels@), all),
{
    let ghost labels = views(priority_labels@);
    let groups = group_tasks_by_labels(issues, priority_labels);
    let priority_tasks = group_tasks_by_priority_labels(issues, priority_labels);
    let ghost order = group_order(issues@, labels);
    let mut lines: Vec<Line> = Vec::new();
    let names = join_with(&sorted_distinct(priority_labels), ", ");
    let heading = heading_line("Priority: ", names.as_str());
    assert(line_views(lines@) =~= Seq::<Seq<SpanView>>::empty());
    push_section(&mut lines, heading, &priority_tasks, all);
    let ghost first = section(priority_heading(labels), priority_bucket(issues@, labels), all);
    assert(line_views(lines@) =~= first + tag_sections(issues@, labels, order.take(0), all));
    let mut g: usize = 0;
    while g < groups.len()
        invariant
            g <= groups.len(),
            labels == views(priority_labels@),
            order == group_order(issues@, labels),
            groups.len() == order.len(),
            forall|h: int|
                0 <= h < groups.len() ==> {
                    &&& (#[trigger] groups[h]).key@ == order[h]
                    &&& pointees(groups[h].issues@) == group_of(issues@, labels, groups[h].key@)
                },
            first == section(priority_heading(labels), priority_bucket(issues@, labels), all),
            line_views(lines@) == first + tag_sections(issues@, labels, order.take(g as int), all),
        decreases groups.len() - g,
    {
        let group = &groups[g];
        proof {
            let next = order.take(g + 1);
            assert(next.drop_last() == order.take(g as int));
            assert(next.last() == group.key@);
        }
        let heading = heading_line("Tag: ", group.key.as_str());
        push_section(&mut lines, heading, &group.issues, all);
        g = g + 1;
    }
    assert(order.take(g as int) == order);
    lines
}

/// A listing: the lines of the display, and the repositories whose tasks
/// are missing from it.
#[derive(Debug, Clone)]
pub struct Listing {
    pub lines: Vec<Line>,
    pub failures: Vec<PartialAggregationFailure>,
}

/// Merges what came back from the repositories and shows the merged tasks
/// with the priority labels of the configuration.
///
/// A repository that failed is reported in `failures` and shows no task;
/// the tasks of the others are shown all the same, so a listing never fails
/// as a whole.
pub fn aggregate_and_display_all_tasks(
    fetched: Vec<Fetched>,
    config: &AppConfig,
    all: bool,
) -> (listing:
    Listing)
    ensures
        line_views(listing.lines@) == table(
            merged_issues(fetched@),
            views(config.labels_view().priority_labels@),
            all,
        ),
        failure_views(listing.failures@) == failures_of(fetched@),
{
    let aggregate = merge(fetched);
    let lines = display_tasks_in_table(&aggregate.issues, &config.labels().priority_labels, all);
    Listing { lines, failures: aggregate.failures }
}

/// The line of the list of repositories for one repository: its id, and
/// after ` - ` where it is found at its backend.
pub open spec fn store_line(repository: TaskIssueProvider) -> Seq<char> {
    match repository {
        TaskIssueProvider::GitHub(g, x) => x.id@ + " - "@ + g.endpoint@ + "/"@ + x.owner@ + "/"@
            + x.repo@,
        TaskIssueProvider::GitLab(g, x) => x.id@ + " - "@ + g.endpoint@ + "/"@ + x.project_id@,
        TaskIssueProvider::Jira(g, x) => x.id@ + " - "@ + g.endpoint@ + "/"@ + x.project_key@,
    }
}

/// The line of the list of repositories for one repository.
fn line_of_store(repository: &TaskIssueProvider) -> (line: String)
    ensures
        line@ == store_line(*repository),
{
    match *repository {
        TaskIssueProvider::GitHub(g, x) => {
            let mut line = x.id.clone();
            line.append(" - ");
            line.append(g.endpoint.as_str());
            line.append("/");
            line.append(x.owner.as_str());
            line.append("/");
            line.append(x.repo.as_str());
            line
        },
        TaskIssueProvider::GitLab(g, x) => {
            let mut line = x.id.clone();
            line.append(" - ");
            line.append(g.endpoint.as_str());
            line.append("/");
            line.append(x.project_id.as_str());
            line
        },
        TaskIssueProvider::Jira(g, x) => {
            let mut line = x.id.clone();
            line.append(" - ");
            line.append(g.endpoint.as_str());
            line.append("/");
            line.append(x.project_key.as_str());
            line
        },
    }
}

/// The list of the repositories of the registry: one line for each, in
/// registry order.
pub fn list_issue_stores(config: &AppConfig) -> (lines: Vec<String>)
    ensures
        views(lines@) == config.repository_refs().map_values(
            |p: TaskIssueProvider| store_line(p),
        ),
{
    let refs = config.all_repository_refs();
    let mut lines: Vec<String> = Vec::new();
    let mut i: usize = 0;
    while i < refs.len()
        invariant
            i <= refs.len(),
            lines.len() == i,
            forall|k: int| 0 <= k < i ==> (#[trigger] lines[k])@ == store_line(refs@[k]),
        decreases refs.len() - i,
    {
        lines.push(line_of_store(&refs[i]));
        i = i + 1;
    }
    assert(views(lines@) =~= refs@.map_values(|p: TaskIssueProvider| store_line(p)));
    lines
}

/// A task with a priority tag stands in the priority bucket and in no
/// group, whatever else its tags are.
pub proof fn lemma_priority_task_is_in_no_group(
    issues: Seq<Issue>,
    labels: Seq<Seq<char>>,
    i: int,
    key: Seq<char>,
)
    requires
        0 <= i < issues.len(),
        has_priority_tag(issues[i], labels),
    ensures
        priority_bucket(issues, labels).contains(issues[i]),
        !group_of(issues, labels, key).contains(issues[i]),
{
    issues.lemma_filter_contains(is_priority(labels), i);
    if group_of(issues, labels, key).contains(issues[i]) {
        let g = group_of(issues, labels, key);
        let k = choose|k: int| 0 <= k < g.len() && g[k] == issues[i];
        issues.lemma_filter_pred(is_member(labels, key), k);
    }
}

/// A task without a priority tag stands in the group of its key, in no
/// other group, and not in the priority bucket.
pub proof fn lemma_other_task_is_in_its_group(
    issues: Seq<Issue>,
    labels: Seq<Seq<char>>,
    i: int,
    key: Seq<char>,
)
    requires
        0 <= i < issues.len(),
        !has_priority_tag(issues[i], labels),
    ensures
        !priority_bucket(issues, labels).contains(issues[i]),
        group_of(issues, labels, key).contains(issues[i]) <==> key == group_key(issues[i], labels),
{
    if priority_bucket(issues, labels).contains(issues[i]) {
        let b = priority_bucket(issues, labels);
        let k = choose|k: int| 0 <= k < b.len() && b[k] == issues[i];
        issues.lemma_filter_pred(is_priority(labels), k);
    }
    if group_of(issues, labels, key).contains(issues[i]) {
        let g = group_of(issues, labels, key);
        let k = choose|k: int| 0 <= k < g.len() && g[k] == issues[i];
        issues.lemma_filter_pred(is_member(labels, key), k);
    }
    if key == group_key(issues[i], labels) {
        issues.lemma_filter_contains(is_member(labels, key), i);
    }
}

/// The keys of the tasks that are no priority, in the order of the tasks.
spec fn keys_in_order(issues: Seq<Issue>, labels: Seq<Seq<char>>) -> Seq<Seq<char>>
    decreases issues.len(),
{
    if issues.len() == 0 {
        Seq::empty()
    } else if has_priority_tag(issues.last(), labels) {
        keys_in_order(issues.drop_last(), labels)
    } else {
        keys_in_order(issues.drop_last(), labels).push(group_key(issues.last(), labels))
    }
}

/// The keys in the order of the tasks are the keys of the groups.
proof fn lemma_keys_in_order(issues: Seq<Issue>, labels: Seq<Seq<char>>)
    ensures
        keys_in_order(issues, labels).to_set() == group_key_set(issues, labels),
    decreases issues.len(),
{
    let all = group_key_set(issues, labels);
    if issues.len() == 0 {
        assert(keys_in_order(issues, labels).to_set() =~= all);
    } else {
        let rest = issues.drop_last();
        let last = issues.last();
        lemma_keys_in_order(rest, labels);
        let before = group_key_set(rest, labels);
        if has_priority_tag(last, labels) {
            assert forall|key: Seq<char>| all.contains(key) == before.contains(key) by {
                if all.contains(key) {
                    let i = choose|i: int|
                        0 <= i < issues.len() && in_group(#[trigger] issues[i], labels, key);
                    assert(in_group(rest[i], labels, key));
                }
                if before.contains(key) {
                    let i = choose|i: int|
                        0 <= i < rest.len() && in_group(#[trigger] rest[i], labels, key);
                    assert(in_group(issues[i], labels, key));
                }
            }
            assert(all =~= before);
        } else {
            let new_key = group_key(last, labels);
            keys_in_order(rest, labels).lemma_push_to_set_commute(new_key);
            assert forall|key: Seq<char>| all.contains(key) == before.insert(new_key).contains(
                key,
            ) by {
                if all.contains(key) {
                    let i = choose|i: int|
                        0 <= i < issues.len() && in_group(#[trigger] issues[i], labels, key);
                    if i < rest.len() {
                        assert(in_group(rest[i], labels, key));
                    }
                }
                if before.contains(key) {
                    let i = choose|i: int|
                        0 <= i < rest.len() && in_group(#[trigger] rest[i], labels, key);
                    assert(in_group(issues[i], labels, key));
                }
                if key == new_key {
                    assert(in_group(issues[issues.len() - 1], labels, key));
                }
            }
            assert(all =~= before.insert(new_key));
        }
    }
}

/// Every group is shown once: the order of the groups holds the key of
/// each group that is not empty, no other key, and no key twice. With it a
/// task without a priority tag is shown in one group, that of its key.
pub proof fn lemma_every_group_is_shown_once(issues: Seq<Issue>, labels: Seq<Seq<char>>)
    ensures
        forall|key: Seq<char>|
            group_order(issues, labels).contains(key) <==> group_key_set(issues, labels).contains(
                key,
            ),
        group_order(issues, labels).no_duplicates(),
        forall|i: int|
            0 <= i < issues.len() && !has_priority_tag(#[trigger] issues[i], labels)
                ==> group_order(issues, labels).contains(group_key(issues[i], labels)),
{
    let all = group_key_set(issues, labels);
    lemma_keys_in_order(issues, labels);
    lemma_sorted_list_exists(keys_in_order(issues, labels));
    let k = sorted_list(all);
    let p = "priority"@;
    let shown = group_order(issues, labels);
    assert forall|a: int, b: int| 0 <= a < k.len() && 0 <= b < k.len() && a != b implies k[a]
        != k[b] by {
        lemma_lex_irreflexive(k[a]);
        if a < b {
            assert(lex_lt(k[a], k[b]));
        } else {
            assert(lex_lt(k[b], k[a]));
        }
    }
    if k.contains(p) {
        let at = k.index_of(p);
        let others = k.remove(at);
        assert forall|m: int| 0 <= m < others.len() implies others[m] == if m < at {
            k[m]
        } else {
            k[m + 1]
        } by {}
        assert forall|key: Seq<char>| shown.contains(key) <==> k.contains(key) by {
            if shown.contains(key) {
                let m = choose|m: int| 0 <= m < shown.len() && shown[m] == key;
                if m == 0 {
                    assert(k[at] == key);
                } else if m - 1 < at {
                    assert(k[m - 1] == key);
                } else {
                    assert(k[m] == key);
                }
            }
            if k.contains(key) {
                let i = choose|i: int| 0 <= i < k.len() && k[i] == key;
                if i == at {
                    assert(shown[0] == key);
                } else if i < at {
                    assert(shown[i + 1] == key);
                } else {
                    assert(shown[i] == key);
                }
            }
        }
        assert forall|a: int, b: int| 0 <= a < shown.len() && 0 <= b < shown.len() && a
            != b implies shown[a] != shown[b] by {
            let ia = if a == 0 {
                at
            } else if a - 1 < at {
                a - 1
            } else {
                a
            };
            let ib = if b == 0 {
                at
            } else if b - 1 < at {
                b - 1
            } else {
                b
            };
            assert(shown[a] == k[ia]);
            assert(shown[b] == k[ib]);
            assert(ia != ib);
        }
    }
    assert forall|key: Seq<char>| shown.contains(key) <==> all.contains(key) by {
        assert(k.contains(key) <==> k.to_set().contains(key));
    }
    assert forall|i: int|
        0 <= i < issues.len() && !has_priority_tag(#[trigger] issues[i], labels) implies shown.contains(
        group_key(issues[i], labels),
    ) by {
        assert(in_group(issues[i], labels, group_key(issues[i], labels)));
        assert(all.contains(group_key(issues[i], labels)));
    }
}

/// The tasks of the groups `keys`, group after group, each group in the
/// order of `issues`.
pub open spec fn group_tasks(
    issues: Seq<Issue>,
    labels: Seq<Seq<char>>,
    keys: Seq<Seq<char>>,
) -> Seq<Issue>
    decreases keys.len(),
{
    if keys.len() == 0 {
        Seq::empty()
    } else {
        group_tasks(issues, labels, keys.drop_last()) + group_of(issues, labels, keys.last())
    }
}

/// The tasks that the display shows, in the order of their lines: those of
/// the priority bucket, and after them those of each group in the order of
/// the groups.
pub open spec fn shown_tasks(issues: Seq<Issue>, labels: Seq<Seq<char>>) -> Seq<Issue> {
    priority_bucket(issues, labels) + group_tasks(issues, labels, group_order(issues, labels))
}

/// What one more task adds to the groups `keys`: itself, once, where it is
/// no priority and its key is among `keys`, and else nothing.
proof fn lemma_group_tasks_push(
    issues: Seq<Issue>,
    labels: Seq<Seq<char>>,
    keys: Seq<Seq<char>>,
    x: Issue,
)
    requires
        keys.no_duplicates(),
    ensures
        group_tasks(issues.push(x), labels, keys).to_multiset() == if !has_priority_tag(x, labels)
            && keys.contains(group_key(x, labels)) {
            group_tasks(issues, labels, keys).to_multiset().insert(x)
        } else {
            group_tasks(issues, labels, keys).to_multiset()
        },
    decreases keys.len(),
{
    if keys.len() == 0 {
    } else {
        let rest = keys.drop_last();
        let last = keys.last();
        assert(rest.no_duplicates()) by {
            assert forall|i: int, j: int| 0 <= i < rest.len() && 0 <= j < rest.len() && i
                != j implies rest[i] != rest[j] by {
                assert(keys[i] != keys[j]);
            }
        }
        lemma_group_tasks_push(issues, labels, rest, x);
        issues.lemma_filter_push(x, is_member(labels, last));
        let before = group_tasks(issues, labels, rest);
        let after = group_tasks(issues.push(x), labels, rest);
        let group = group_of(issues, labels, last);
        vstd::seq_lib::lemma_multiset_commutative(before, group);
        vstd::seq_lib::lemma_multiset_commutative(after, group_of(issues.push(x), labels, last));
        vstd::seq_lib::to_multiset_build(group, x);
        let key = group_key(x, labels);
        if !has_priority_tag(x, labels) && key == last {
            if rest.contains(key) {
                let i = choose|i: int| 0 <= i < rest.len() && rest[i] == key;
                assert(keys[i] == keys[keys.len() - 1]);
            }
            assert(keys.contains(key)) by {
                assert(keys[keys.len() - 1] == key);
            }
            assert(before.to_multiset().add(group.to_multiset().insert(x)) =~= before.to_multiset().add(
                group.to_multiset(),
            ).insert(x));
        } else {
            if rest.contains(key) {
                let i = choose|i: int| 0 <= i < rest.len() && rest[i] == key;
                assert(keys[i] == key);
            }
            if keys.contains(key) {
                let i = choose|i: int| 0 <= i < keys.len() && keys[i] == key;
                if !has_priority_tag(x, labels) {
                    assert(rest[i] == key);
                }
            }
            assert(before.to_multiset().insert(x).add(group.to_multiset()) =~= before.to_multiset().add(
                group.to_multiset(),
            ).insert(x));
        }
    }
}

/// The priority bucket and the groups `keys` together hold each of the
/// tasks once, where `keys` holds no key twice and holds the key of every
/// task that is no priority.
proof fn lemma_bucket_and_groups_hold_each_task_once(
    issues: Seq<Issue>,
    labels: Seq<Seq<char>>,
    keys: Seq<Seq<char>>,
)
    requires
        keys.no_duplicates(),
        forall|i: int|
            0 <= i < issues.len() && !has_priority_tag(#[trigger] issues[i], labels)
                ==> keys.contains(group_key(issues[i], labels)),
    ensures
        (priority_bucket(issues, labels) + group_tasks(issues, labels, keys)).to_multiset()
            == issues.to_multiset(),
    decreases issues.len(),
{
    let bucket = priority_bucket(issues, labels);
    let groups = group_tasks(issues, labels, keys);
    vstd::seq_lib::lemma_multiset_commutative(bucket, groups);
    if issues.len() == 0 {
        lemma_no_task_no_group(labels, keys);
        reveal(Seq::filter);
        assert(bucket =~= Seq::<Issue>::empty());
        assert(bucket + groups =~= issues);
    } else {
        let rest = issues.drop_last();
        let x = issues.last();
        assert(issues =~= rest.push(x));
        assert forall|i: int|
            0 <= i < rest.len() && !has_priority_tag(#[trigger] rest[i], labels) implies keys.contains(
            group_key(rest[i], labels),
        ) by {
            assert(rest[i] == issues[i]);
        }
        lemma_bucket_and_groups_hold_each_task_once(rest, labels, keys);
        let bucket_before = priority_bucket(rest, labels);
        let groups_before = group_tasks(rest, labels, keys);
        vstd::seq_lib::lemma_multiset_commutative(bucket_before, groups_before);
        rest.lemma_filter_push(x, is_priority(labels));
        lemma_group_tasks_push(rest, labels, keys, x);
        vstd::seq_lib::to_multiset_build(bucket_before, x);
        vstd::seq_lib::to_multiset_build(rest, x);
        if has_priority_tag(x, labels) {
            assert(bucket_before.to_multiset().insert(x).add(groups_before.to_multiset())
                =~= bucket_before.to_multiset().add(groups_before.to_multiset()).insert(x));
        } else {
            assert(keys.contains(group_key(issues[issues.len() - 1], labels)));
            assert(bucket_before.to_multiset().add(groups_before.to_multiset().insert(x))
                =~= bucket_before.to_multiset().add(groups_before.to_multiset()).insert(x));
        }
    }
}

/// Without tasks the groups hold no task.
proof fn lemma_no_task_no_group(labels: Seq<Seq<char>>, keys: Seq<Seq<char>>)
    ensures
        group_tasks(Seq::<Issue>::empty(), labels, keys) == Seq::<Issue>::empty(),
    decreases keys.len(),
{
    if keys.len() > 0 {
        lemma_no_task_no_group(labels, keys.drop_last());
        reveal(Seq::filter);
        assert(group_of(Seq::<Issue>::empty(), labels, keys.last()) =~= Seq::<Issue>::empty());
    }
}

/// Every task is shown once: the tasks that the display shows are the
/// tasks that it is given, each as often as it is given. A task with a
/// priority tag is among those of the priority bucket only, and any other
/// task among those of one group.
pub proof fn lemma_every_task_is_shown_once(issues: Seq<Issue>, labels: Seq<Seq<char>>)
    ensures
        shown_tasks(issues, labels).to_multiset() == issues.to_multiset(),
        shown_tasks(issues, labels).len() == issues.len(),
{
    lemma_every_group_is_shown_once(issues, labels);
    lemma_bucket_and_groups_hold_each_task_once(issues, labels, group_order(issues, labels));
    shown_tasks(issues, labels).to_multiset_ensures();
    issues.to_multiset_ensures();
}

/// The lines of tasks among lines: a line of a task has seven spans, and
/// neither a heading nor a divider nor an empty line has.
pub open spec fn is_task_line() -> spec_fn(Seq<SpanView>) -> bool {
    |line: Seq<SpanView>| line.len() == 7
}

/// The lines of tasks are lines of tasks, all of them.
proof fn lemma_issue_lines_are_task_lines(rows: Seq<Issue>, all: bool)
    ensures
        issue_lines(rows, all).filter(is_task_line()) == issue_lines(rows, all),
    decreases rows.len(),
{
    if rows.len() == 0 {
        reveal(Seq::filter);
        assert(issue_lines(rows, all) =~= Seq::<Seq<SpanView>>::empty());
    } else {
        let rest = rows.drop_last();
        lemma_issue_lines_are_task_lines(rest, all);
        assert(issue_lines(rows, all) =~= issue_lines(rest, all).push(issue_line(rows.last(), all)));
        issue_lines(rest, all).lemma_filter_push(issue_line(rows.last(), all), is_task_line());
    }
}

/// Of the lines of a section under a heading of two spans, the lines of
/// tasks are the lines of its tasks.
proof fn lemma_task_lines_of_section(heading: Seq<SpanView>, rows: Seq<Issue>, all: bool)
    requires
        heading.len() == 2,
    ensures
        section(heading, rows, all).filter(is_task_line()) == issue_lines(rows, all),
{
    let none = Seq::<Seq<SpanView>>::empty();
    let head = seq![heading, divider()];
    let tail = seq![Seq::<SpanView>::empty()];
    let lines = issue_lines(rows, all);
    assert(head.filter(is_task_line()) == none) by {
        reveal(Seq::filter);
        assert(head =~= none.push(heading).push(divider()));
        none.lemma_filter_push(heading, is_task_line());
        none.push(heading).lemma_filter_push(divider(), is_task_line());
    }
    assert(tail.filter(is_task_line()) == none) by {
        reveal(Seq::filter);
        assert(tail =~= none.push(Seq::<SpanView>::empty()));
        none.lemma_filter_push(Seq::<SpanView>::empty(), is_task_line());
    }
    lemma_issue_lines_are_task_lines(rows, all);
    Seq::filter_distributes_over_add(head, lines, is_task_line());
    Seq::filter_distributes_over_add(head + lines, tail, is_task_line());
    assert(none + lines + none =~= lines);
}

/// Of the lines of the sections of the groups `keys`, the lines of tasks
/// are the lines of the tasks of those groups.
proof fn lemma_task_lines_of_groups(
    issues: Seq<Issue>,
    labels: Seq<Seq<char>>,
    keys: Seq<Seq<char>>,
    all: bool,
)
    ensures
        tag_sections(issues, labels, keys, all).filter(is_task_line()) == issue_lines(
            group_tasks(issues, labels, keys),
            all,
        ),
    decreases keys.len(),
{
    if keys.len() == 0 {
        reveal(Seq::filter);
        assert(issue_lines(group_tasks(issues, labels, keys), all) =~= Seq::<
            Seq<SpanView>,
        >::empty());
    } else {
        let rest = keys.drop_last();
        let group = group_of(issues, labels, keys.last());
        lemma_task_lines_of_groups(issues, labels, rest, all);
        lemma_task_lines_of_section(tag_heading(keys.last()), group, all);
        Seq::filter_distributes_over_add(
            tag_sections(issues, labels, rest, all),
            section(tag_heading(keys.last()), group, all),
            is_task_line(),
        );
        assert(issue_lines(group_tasks(issues, labels, rest) + group, all) =~= issue_lines(
            group_tasks(issues, labels, rest),
            all,
        ) + issue_lines(group, all));
    }
}

/// The lines of tasks of the display are the lines of the tasks that it
/// shows, in their order. With `lemma_every_task_is_shown_once`, the
/// display has one line for each task that it is given.
pub proof fn lemma_task_lines_of_table(issues: Seq<Issue>, labels: Seq<Seq<char>>, all: bool)
    ensures
        table(issues, labels, all).filter(is_task_line()) == issue_lines(
            shown_tasks(issues, labels),
            all,
        ),
{
    let bucket = priority_bucket(issues, labels);
    let order = group_order(issues, labels);
    lemma_task_lines_of_section(priority_heading(labels), bucket, all);
    lemma_task_lines_of_groups(issues, labels, order, all);
    Seq::filter_distributes_over_add(
        section(priority_heading(labels), bucket, all),
        tag_sections(issues, labels, order, all),
        is_task_line(),
    );
    assert(issue_lines(bucket + group_tasks(issues, labels, order), all) =~= issue_lines(
        bucket,
        all,
    ) + issue_lines(group_tasks(issues, labels, order), all));
}

/// The name of the colour that is configured for a tone; plain text has
/// none.
pub open spec fn tone_color_name(colors: Colors, tone: Tone) -> Option<Seq<char>> {
    match tone {
        Tone::Plain => None,
        Tone::IssueId => Some(colors.issue_id@),
        Tone::Title => Some(colors.title@),
        Tone::Tags => Some(colors.tags@),
    }
}

impl Colors {
    /// The name of the colour that is configured for a tone; `None` for
    /// plain text, which has no colour.
    pub fn name_of(&self, tone: Tone) -> (name: Option<&str>)
        ensures
            match name {
                Some(n) => tone_color_name(*self, tone) == Some(n@),
                None => tone_color_name(*self, tone) is None,
            },
    {
        match tone {
            Tone::Plain => None,
            Tone::IssueId => Some(self.issue_id.as_str()),
            Tone::Title => Some(self.title.as_str()),
            Tone::Tags => Some(self.tags.as_str()),
        }
    }

    /// The colour in which a tone is shown: the colour that the name
    /// configured for the tone stands for. There is none for plain text,
    /// and none where the configured name is no colour name.
    pub fn color_of(&self, tone: Tone) -> (color: Option<colored::Color>)
        ensures
            match tone_color_name(*self, tone) {
                Some(name) => color is Some <==> is_color_name(name),
                None => color is None,
            },
    {
        match self.name_of(tone) {
            Some(name) => color_named(name),
            None => None,
        }
    }
}

} // verus!
