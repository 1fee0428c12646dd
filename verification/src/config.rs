//! The provider registry: the configured backend accounts with their
//! repositories, and the lookups that resolve a name to one of them.

use vstd::prelude::*;
use vstd::string::*;
use crate::color::{color_named, is_color_name};
use crate::error::TaskError;
use crate::text::{chars_of, find_first, first_index_of, lemma_first_index_of, same_text};
use crate::providers::github::model::{GitHubConfig, GitHubRepository};
use crate::providers::gitlab::model::{GitLabConfig, GitLabRepository};
use crate::providers::jira::model::{JiraConfig, JiraProject};

verus! {

/// The colour names in which the parts of a task are shown.
#[derive(Debug, Clone)]
pub struct Colors {
    pub issue_id: String,
    pub title: String,
    pub tags: String,
}

/// Which tags mark a task as a priority.
#[derive(Debug, Clone)]
pub struct LabelConfig {
    /// The priority labels. They are read as a set: order and repetition
    /// carry no meaning.
    pub priority_labels: Vec<String>,
    pub priority_timeframe: Option<String>,
}

/// What a repository is the default for.
#[derive(Debug, Clone, Copy)]
pub struct Defaults {
    /// New tasks are created here when no repository is named.
    pub for_new_tasks: Option<bool>,
    /// The repository is part of the quick list.
    pub for_display: Option<bool>,
}

/// Whether the defaults of a repository make it the place for new tasks.
pub open spec fn is_default_for_new_tasks(defaults: Option<Defaults>) -> bool {
    defaults matches Some(d) && d.for_new_tasks == Some(true)
}

/// One addressable repository or project of a backend account.
pub trait IssueTaskRepository {
    /// The id of the repository.
    spec fn id_view(&self) -> Seq<char>;

    /// The defaults of the repository.
    spec fn defaults_view(&self) -> Option<Defaults>;

    /// The configured name of the colour of the repository.
    spec fn color_name_view(&self) -> Seq<char>;

    /// What the repository is the default for, where that is configured.
    fn defaults(&self) -> (d: Option<Defaults>)
        ensures
            d == self.defaults_view(),
    ;

    /// The id of the repository.
    fn id(&self) -> (s: String)
        ensures
            s@ == self.id_view(),
    ;

    /// The colour in which the repository is shown: the colour that its
    /// configured colour name stands for, and `None` where that name is no
    /// colour name.
    fn color(&self) -> (c: Option<colored::Color>)
        ensures
            c is Some <==> is_color_name(self.color_name_view()),
    ;

    /// Whether new tasks go to this repository when none is named.
    fn is_default(&self) -> (b: bool)
        ensures
            b == is_default_for_new_tasks(self.defaults_view()),
    {
        match self.defaults() {
            None => false,
            Some(d) => match d.for_new_tasks {
                None => false,
                Some(b) => b,
            },
        }
    }
}

/// One repository together with the account it is read through: the unit
/// that a task reference is resolved to. The variants are the provider
/// kinds.
#[derive(Debug, Clone, Copy)]
pub enum TaskIssueProvider<'a> {
    GitHub(&'a GitHubConfig, &'a GitHubRepository),
    GitLab(&'a GitLabConfig, &'a GitLabRepository),
    Jira(&'a JiraConfig, &'a JiraProject),
}

impl<'a> IssueTaskRepository for TaskIssueProvider<'a> {
    open spec fn id_view(&self) -> Seq<char> {
        match *self {
            TaskIssueProvider::GitHub(_, repo) => repo.id@,
            TaskIssueProvider::GitLab(_, repo) => repo.id@,
            TaskIssueProvider::Jira(_, project) => project.id@,
        }
    }

    open spec fn defaults_view(&self) -> Option<Defaults> {
        match *self {
            TaskIssueProvider::GitHub(_, repo) => repo.defaults,
            TaskIssueProvider::GitLab(_, repo) => repo.defaults,
            TaskIssueProvider::Jira(_, project) => project.defaults,
        }
    }

    open spec fn color_name_view(&self) -> Seq<char> {
        match *self {
            TaskIssueProvider::GitHub(_, repo) => repo.color@,
            TaskIssueProvider::GitLab(_, repo) => repo.color@,
            TaskIssueProvider::Jira(_, project) => project.color@,
        }
    }

    fn defaults(&self) -> (d: Option<Defaults>) {
        match *self {
            TaskIssueProvider::GitHub(_, repo) => repo.defaults,
            TaskIssueProvider::GitLab(_, repo) => repo.defaults,
            TaskIssueProvider::Jira(_, project) => project.defaults,
        }
    }

    fn id(&self) -> (s: String) {
        match *self {
            TaskIssueProvider::GitHub(_, repo) => repo.id.clone(),
            TaskIssueProvider::GitLab(_, repo) => repo.id.clone(),
            TaskIssueProvider::Jira(_, project) => project.id.clone(),
        }
    }

    fn color(&self) -> (c: Option<colored::Color>) {
        match *self {
            TaskIssueProvider::GitHub(_, repo) => color_named(repo.color.as_str()),
            TaskIssueProvider::GitLab(_, repo) => color_named(repo.color.as_str()),
            TaskIssueProvider::Jira(_, project) => color_named(project.color.as_str()),
        }
    }
}

/// An account of a backend, as the registry reads it: the repositories
/// that are read through the account, each together with the account.
pub trait ProviderAccount {
    /// The repositories of the account, in the order of the configuration.
    spec fn entries<'a>(&'a self) -> Seq<TaskIssueProvider<'a>>;

    /// The number of repositories of the account.
    fn entry_count(&self) -> (n: usize)
        ensures
            n == self.entries().len(),
    ;

    /// The repository at the position `i`.
    fn entry<'a>(&'a self, i: usize) -> (p: TaskIssueProvider<'a>)
        requires
            i < self.entries().len(),
        ensures
            p == self.entries()[i as int],
    ;
}

impl ProviderAccount for GitHubConfig {
    open spec fn entries<'a>(&'a self) -> Seq<TaskIssueProvider<'a>> {
        self.repositories@.map_values(|r: GitHubRepository| TaskIssueProvider::GitHub(self, &r))
    }

    fn entry_count(&self) -> (n: usize) {
        self.repositories.len()
    }

    fn entry<'a>(&'a self, i: usize) -> (p: TaskIssueProvider<'a>) {
        TaskIssueProvider::GitHub(self, &self.repositories[i])
    }
}

impl ProviderAccount for GitLabConfig {
    open spec fn entries<'a>(&'a self) -> Seq<TaskIssueProvider<'a>> {
        self.repositories@.map_values(|r: GitLabRepository| TaskIssueProvider::GitLab(self, &r))
    }

    fn entry_count(&self) -> (n: usize) {
        self.repositories.len()
    }

    fn entry<'a>(&'a self, i: usize) -> (p: TaskIssueProvider<'a>) {
        TaskIssueProvider::GitLab(self, &self.repositories[i])
    }
}

impl ProviderAccount for JiraConfig {
    open spec fn entries<'a>(&'a self) -> Seq<TaskIssueProvider<'a>> {
        self.projects@.map_values(|p: JiraProject| TaskIssueProvider::Jira(self, &p))
    }

    fn entry_count(&self) -> (n: usize) {
        self.projects.len()
    }

    fn entry<'a>(&'a self, i: usize) -> (p: TaskIssueProvider<'a>) {
        TaskIssueProvider::Jira(self, &self.projects[i])
    }
}

/// The repositories of the accounts `configs`, account by account.
pub open spec fn account_refs<'a, C: ProviderAccount>(configs: Seq<C>) -> Seq<
    TaskIssueProvider<'a>,
> {
    configs.map_values(|c: C| c.entries()).flatten()
}

/// The repositories of the GitHub accounts `configs`, account by account.
pub open spec fn github_refs<'a>(configs: Seq<GitHubConfig>) -> Seq<TaskIssueProvider<'a>> {
    account_refs(configs)
}

/// The projects of the GitLab accounts `configs`, account by account.
pub open spec fn gitlab_refs<'a>(configs: Seq<GitLabConfig>) -> Seq<TaskIssueProvider<'a>> {
    account_refs(configs)
}

/// The projects of the Jira accounts `configs`, account by account.
pub open spec fn jira_refs<'a>(configs: Seq<JiraConfig>) -> Seq<TaskIssueProvider<'a>> {
    account_refs(configs)
}

/// Every repository in registry order: GitHub before GitLab before Jira,
/// and within a kind the order of the configuration.
pub open spec fn registry_refs<'a>(
    github: Seq<GitHubConfig>,
    gitlab: Seq<GitLabConfig>,
    jira: Seq<JiraConfig>,
) -> Seq<TaskIssueProvider<'a>> {
    github_refs(github) + gitlab_refs(gitlab) + jira_refs(jira)
}

/// Appends the repositories of the accounts `configs` to `out`, account by
/// account.
pub(crate) fn push_refs<'a, C: ProviderAccount>(
    out: &mut Vec<TaskIssueProvider<'a>>,
    configs: &'a Vec<C>,
)
    ensures
        final(out)@ == old(out)@ + account_refs(configs@),
{
    let ghost before = out@;
    let mut i: usize = 0;
    while i < configs.len()
        invariant
            i <= configs.len(),
            out@ == before + account_refs(configs@.take(i as int)),
        decreases configs.len() - i,
    {
        let account = &configs[i];
        let ghost head = out@;
        let ghost row = configs@[i as int].entries();
        let count = account.entry_count();
        let mut j: usize = 0;
        while j < count
            invariant
                j <= count,
                i < configs.len(),
                *account == configs@[i as int],
                row == configs@[i as int].entries(),
                count == row.len(),
                out@ == head + row.take(j as int),
            decreases count - j,
        {
            out.push(account.entry(j));
            assert(row.take(j + 1) == row.take(j as int).push(row[j as int]));
            j = j + 1;
        }
        proof {
            let f = |c: C| c.entries();
            let prefix = configs@.take(i as int);
            assert(configs@.take(i + 1) == prefix.push(configs@[i as int]));
            assert(prefix.push(configs@[i as int]).map_values(f) == prefix.map_values(f).push(
                f(configs@[i as int]),
            ));
            prefix.map_values(f).lemma_flatten_push(f(configs@[i as int]));
            assert(row.take(j as int) == row);
        }
        i = i + 1;
    }
    assert(configs@.take(i as int) == configs@);
}

/// Every repository of the three lists of accounts, in registry order.
pub fn repository_refs_of<'a>(
    github: &'a Vec<GitHubConfig>,
    gitlab: &'a Vec<GitLabConfig>,
    jira: &'a Vec<JiraConfig>,
) -> (refs: Vec<TaskIssueProvider<'a>>)
    ensures
        refs@ == registry_refs(github@, gitlab@, jira@),
{
    let mut refs: Vec<TaskIssueProvider<'a>> = Vec::new();
    push_refs(&mut refs, github);
    push_refs(&mut refs, gitlab);
    push_refs(&mut refs, jira);
    refs
}

impl<'a> TaskIssueProvider<'a> {
    /// The id of the repository, borrowed from the configuration.
    pub fn id_str(&self) -> (id: &'a str)
        ensures
            id@ == self.id_view(),
    {
        match *self {
            TaskIssueProvider::GitHub(_, repo) => repo.id.as_str(),
            TaskIssueProvider::GitLab(_, repo) => repo.id.as_str(),
            TaskIssueProvider::Jira(_, project) => project.id.as_str(),
        }
    }
}

/// No two of the repositories share an id.
pub open spec fn distinct_ids(refs: Seq<TaskIssueProvider>) -> bool {
    forall|i: int, j: int|
        0 <= i < j < refs.len() ==> (#[trigger] refs[i]).id_view() != (#[trigger] refs[j]).id_view()
}

/// The position of the first repository whose id an earlier one has too, or
/// the number of repositories where the ids are distinct.
pub fn first_repeated_id(refs: &Vec<TaskIssueProvider>) -> (j: usize)
    ensures
        j <= refs.len(),
        distinct_ids(refs@.take(j as int)),
        j < refs.len() ==> !distinct_ids(refs@.take(j + 1)),
{
    let mut j: usize = 0;
    while j < refs.len()
        invariant
            j <= refs.len(),
            distinct_ids(refs@.take(j as int)),
        decreases refs.len() - j,
    {
        let id = refs[j].id_str();
        let mut i: usize = 0;
        while i < j
            invariant
                i <= j < refs.len(),
                distinct_ids(refs@.take(j as int)),
                id@ == refs[j as int].id_view(),
                forall|k: int| 0 <= k < i ==> (#[trigger] refs[k]).id_view() != id@,
            decreases j - i,
        {
            if same_text(refs[i].id_str(), id) {
                proof {
                    let t = refs@.take(j + 1);
                    assert(t[i as int].id_view() == t[j as int].id_view());
                }
                return j;
            }
            i = i + 1;
        }
        proof {
            let t = refs@.take(j + 1);
            assert forall|a: int, b: int| 0 <= a < b < t.len() implies (#[trigger] t[a]).id_view()
                != (#[trigger] t[b]).id_view() by {
                if b < j {
                    assert(refs@.take(j as int)[a] == t[a]);
                    assert(refs@.take(j as int)[b] == t[b]);
                } else {
                    assert(t[a] == refs[a]);
                }
            }
        }
        j = j + 1;
    }
    j
}

/// What it is for `r` to be the answer of a search for the first repository
/// that meets `pred`: the first such repository in `refs`, or `None` where
/// none meets it.
pub open spec fn is_first_match(
    refs: Seq<TaskIssueProvider>,
    pred: spec_fn(TaskIssueProvider) -> bool,
    r: Option<TaskIssueProvider>,
) -> bool {
    match r {
        Some(p) => exists|i: int|
            0 <= i < refs.len() && #[trigger] refs[i] == p && pred(refs[i]) && forall|j: int|
                0 <= j < i ==> !pred(#[trigger] refs[j]),
        None => forall|j: int| 0 <= j < refs.len() ==> !pred(#[trigger] refs[j]),
    }
}

/// The first repository of `refs` that meets `pred`, if one does.
pub open spec fn first_match<'a>(
    refs: Seq<TaskIssueProvider<'a>>,
    pred: spec_fn(TaskIssueProvider<'a>) -> bool,
) -> Option<TaskIssueProvider<'a>>
    decreases refs.len(),
{
    if refs.len() == 0 {
        None
    } else if pred(refs[0]) {
        Some(refs[0])
    } else {
        first_match(refs.drop_first(), pred)
    }
}

/// The repositories with the id `id`.
pub open spec fn has_id<'a>(id: Seq<char>) -> spec_fn(TaskIssueProvider<'a>) -> bool {
    |p: TaskIssueProvider| p.id_view() == id
}

/// The repositories that are the default for new tasks.
pub open spec fn is_new_task_default<'a>() -> spec_fn(TaskIssueProvider<'a>) -> bool {
    |p: TaskIssueProvider| is_default_for_new_tasks(p.defaults_view())
}

/// The part of a task reference that names the repository: what stands
/// before its first `/`, or all of it where it holds no `/`.
pub open spec fn reference_prefix(reference: Seq<char>) -> Seq<char> {
    reference.take(first_index_of(reference, '/'))
}

/// The provider registry. It is built once from the loaded configuration
/// and holds the accounts in search order; no two of its repositories
/// share an id.
#[derive(Debug)]
pub struct AppConfig {
    debug: Option<bool>,
    colors: Colors,
    labels: LabelConfig,
    github_com: Vec<GitHubConfig>,
    gitlab_com: Vec<GitLabConfig>,
    jira: Vec<JiraConfig>,
}

impl AppConfig {
    /// The GitHub accounts, in the order of the configuration.
    pub closed spec fn github_view(&self) -> Seq<GitHubConfig> {
        self.github_com@
    }

    /// The GitLab accounts, in the order of the configuration.
    pub closed spec fn gitlab_view(&self) -> Seq<GitLabConfig> {
        self.gitlab_com@
    }

    /// The Jira accounts, in the order of the configuration.
    pub closed spec fn jira_view(&self) -> Seq<JiraConfig> {
        self.jira@
    }

    /// The colours of the display.
    pub closed spec fn colors_view(&self) -> Colors {
        self.colors
    }

    /// The label settings.
    pub closed spec fn labels_view(&self) -> LabelConfig {
        self.labels
    }

    /// The debug switch.
    pub closed spec fn debug_view(&self) -> Option<bool> {
        self.debug
    }

    /// Every repository of the registry, in registry order.
    pub open spec fn repository_refs<'a>(&'a self) -> Seq<TaskIssueProvider<'a>> {
        registry_refs(self.github_view(), self.gitlab_view(), self.jira_view())
    }

    #[verifier::type_invariant]
    spec fn ids_are_distinct(self) -> bool {
        distinct_ids(registry_refs(self.github_com@, self.gitlab_com@, self.jira@))
    }

    /// Builds the registry from a loaded configuration.
    ///
    /// Fails exactly where two repositories share an id, and then names the
    /// id of the first repository, in registry order, that repeats an
    /// earlier one.
    pub fn new(
        debug: Option<bool>,
        colors: Colors,
        labels: LabelConfig,
        github_com: Vec<GitHubConfig>,
        gitlab_com: Vec<GitLabConfig>,
        jira: Vec<JiraConfig>,
    ) -> (r: Result<AppConfig, TaskError>)
        ensures
            match r {
                Ok(config) => {
                    &&& distinct_ids(registry_refs(github_com@, gitlab_com@, jira@))
                    &&& config.debug_view() == debug
                    &&& config.colors_view() == colors
                    &&& config.labels_view() == labels
                    &&& config.github_view() == github_com@
                    &&& config.gitlab_view() == gitlab_com@
                    &&& config.jira_view() == jira@
                },
                Err(e) => {
                    let refs = registry_refs(github_com@, gitlab_com@, jira@);
                    &&& !distinct_ids(refs)
                    &&& e is ConfigInvariantViolation
                    &&& exists|j: int|
                        0 <= j < refs.len() && distinct_ids(refs.take(j)) && !distinct_ids(
                            refs.take(j + 1),
                        ) && e->duplicate_id@ == (#[trigger] refs[j]).id_view()
                },
            },
    {
        let refs = repository_refs_of(&github_com, &gitlab_com, &jira);
        let j = first_repeated_id(&refs);
        if j < refs.len() {
            let duplicate_id = refs[j].id();
            proof {
                let t = refs@.take(j + 1);
                if distinct_ids(refs@) {
                    assert forall|a: int, b: int| 0 <= a < b < t.len() implies (#[trigger] t[a]).id_view()
                        != (#[trigger] t[b]).id_view() by {
                        assert(t[a] == refs@[a]);
                        assert(t[b] == refs@[b]);
                    }
                }
            }
            Err(TaskError::ConfigInvariantViolation { duplicate_id })
        } else {
            assert(refs@.take(j as int) == refs@);
            Ok(AppConfig { debug, colors, labels, github_com, gitlab_com, jira })
        }
    }

    /// The debug switch of the configuration.
    pub fn debug(&self) -> (d: Option<bool>)
        ensures
            d == self.debug_view(),
    {
        self.debug
    }

    /// The colours of the display.
    pub fn colors(&self) -> (c: &Colors)
        ensures
            *c == self.colors_view(),
    {
        &self.colors
    }

    /// The label settings.
    pub fn labels(&self) -> (l: &LabelConfig)
        ensures
            *l == self.labels_view(),
    {
        &self.labels
    }

    /// The GitHub accounts, in the order of the configuration.
    pub fn github_com(&self) -> (accounts: &Vec<GitHubConfig>)
        ensures
            accounts@ == self.github_view(),
    {
        &self.github_com
    }

    /// The GitLab accounts, in the order of the configuration.
    pub fn gitlab_com(&self) -> (accounts: &Vec<GitLabConfig>)
        ensures
            accounts@ == self.gitlab_view(),
    {
        &self.gitlab_com
    }

    /// The Jira accounts, in the order of the configuration.
    pub fn jira(&self) -> (accounts: &Vec<JiraConfig>)
        ensures
            accounts@ == self.jira_view(),
    {
        &self.jira
    }

    /// Every repository of the registry, in registry order. No two of them
    /// share an id.
    pub fn all_repository_refs<'a>(&'a self) -> (refs: Vec<TaskIssueProvider<'a>>)
        ensures
            refs@ == self.repository_refs(),
            distinct_ids(refs@),
    {
        proof {
            use_type_invariant(self);
        }
        repository_refs_of(&self.github_com, &self.gitlab_com, &self.jira)
    }

    /// The first repository, in registry order, for which `f` answers
    /// `true`. The search itself never fails.
    pub fn find_by<'a, F: Fn(&TaskIssueProvider<'a>) -> bool>(&'a self, f: F) -> (r: Result<
        Option<TaskIssueProvider<'a>>,
        TaskError,
    >)
        requires
            forall|i: int|
                0 <= i < self.repository_refs().len() ==> call_requires(
                    f,
                    (&#[trigger] self.repository_refs()[i],),
                ),
        ensures
            r is Ok,
            match r->Ok_0 {
                Some(p) => exists|i: int|
                    0 <= i < self.repository_refs().len() && #[trigger] self.repository_refs()[i]
                        == p && call_ensures(f, (&self.repository_refs()[i],), true) && forall|
                        j: int,
                    |
                        0 <= j < i ==> call_ensures(
                            f,
                            (&#[trigger] self.repository_refs()[j],),
                            false,
                        ),
                None => forall|j: int|
                    0 <= j < self.repository_refs().len() ==> call_ensures(
                        f,
                        (&#[trigger] self.repository_refs()[j],),
                        false,
                    ),
            },
    {
        let refs = self.all_repository_refs();
        let mut i: usize = 0;
        while i < refs.len()
            invariant
                i <= refs.len(),
                refs@ == self.repository_refs(),
                forall|k: int|
                    0 <= k < refs.len() ==> call_requires(f, (&#[trigger] refs@[k],)),
                forall|j: int| 0 <= j < i ==> call_ensures(f, (&#[trigger] refs@[j],), false),
            decreases refs.len() - i,
        {
            if f(&refs[i]) {
                return Ok(Some(refs[i]));
            }
            i = i + 1;
        }
        Ok(None)
    }

    /// The repository with the id `provider_id`, if there is one. The
    /// search itself never fails.
    pub fn find_provider_by_id<'a>(&'a self, provider_id: &str) -> (r: Result<
        Option<TaskIssueProvider<'a>>,
        TaskError,
    >)
        ensures
            r is Ok,
            r->Ok_0 == first_match(self.repository_refs(), has_id(provider_id@)),
    {
        let refs = self.all_repository_refs();
        proof {
            lemma_first_match(refs@, has_id(provider_id@));
        }
        let mut i: usize = 0;
        while i < refs.len()
            invariant
                i <= refs.len(),
                refs@ == self.repository_refs(),
                is_first_match(
                    refs@,
                    has_id(provider_id@),
                    first_match(refs@, has_id(provider_id@)),
                ),
                forall|j: int| 0 <= j < i ==> !has_id(provider_id@)(#[trigger] refs@[j]),
            decreases refs.len() - i,
        {
            if same_text(refs[i].id_str(), provider_id) {
                proof {
                    assert(is_first_match(refs@, has_id(provider_id@), Some(refs@[i as int])));
                    lemma_first_match_is_unique(
                        refs@,
                        has_id(provider_id@),
                        Some(refs@[i as int]),
                        first_match(refs@, has_id(provider_id@)),
                    );
                }
                return Ok(Some(refs[i]));
            }
            i = i + 1;
        }
        proof {
            lemma_first_match_is_unique(
                refs@,
                has_id(provider_id@),
                None,
                first_match(refs@, has_id(provider_id@)),
            );
        }
        Ok(None)
    }

    /// The first repository that is the default for new tasks, if there is
    /// one.
    pub fn find_default_provider<'a>(&'a self) -> (r: Result<
        Option<TaskIssueProvider<'a>>,
        TaskError,
    >)
        ensures
            r is Ok,
            r->Ok_0 == first_match(self.repository_refs(), is_new_task_default()),
    {
        let refs = self.all_repository_refs();
        proof {
            lemma_first_match(refs@, is_new_task_default());
        }
        let mut i: usize = 0;
        while i < refs.len()
            invariant
                i <= refs.len(),
                refs@ == self.repository_refs(),
                is_first_match(
                    refs@,
                    is_new_task_default(),
                    first_match(refs@, is_new_task_default()),
                ),
                forall|j: int| 0 <= j < i ==> !is_new_task_default()(#[trigger] refs@[j]),
            decreases refs.len() - i,
        {
            if refs[i].is_default() {
                proof {
                    assert(is_first_match(refs@, is_new_task_default(), Some(refs@[i as int])));
                    lemma_first_match_is_unique(
                        refs@,
                        is_new_task_default(),
                        Some(refs@[i as int]),
                        first_match(refs@, is_new_task_default()),
                    );
                }
                return Ok(Some(refs[i]));
            }
            i = i + 1;
        }
        proof {
            lemma_first_match_is_unique(
                refs@,
                is_new_task_default(),
                None,
                first_match(refs@, is_new_task_default()),
            );
        }
        Ok(None)
    }

    /// The repository that the task reference `issue` belongs to: the one
    /// whose id is what stands before the first `/` of `issue`, or all of
    /// `issue` where it holds no `/`. The id must be equal to that text, not
    /// only begin with it.
    pub fn find_provider_for_issue<'a>(&'a self, issue: &str) -> (r: Result<
        TaskIssueProvider<'a>,
        TaskError,
    >)
        ensures
            match r {
                Ok(p) => first_match(self.repository_refs(), has_id(reference_prefix(issue@)))
                    == Some(p),
                Err(e) => first_match(self.repository_refs(), has_id(reference_prefix(issue@)))
                    is None && e is UnrecognizedProviderPrefix,
            },
    {
        let v = chars_of(issue);
        let i = find_first(&v, '/');
        proof {
            lemma_first_index_of(v@, '/');
        }
        let prefix = issue.substring_char(0, i);
        assert(prefix@ == reference_prefix(issue@));
        match self.find_provider_by_id(prefix) {
            Ok(Some(p)) => Ok(p),
            _ => Err(TaskError::UnrecognizedProviderPrefix),
        }
    }

    /// The ids of all repositories, in registry order.
    pub fn provider_ids(&self) -> (ids: Vec<String>)
        ensures
            ids.len() == self.repository_refs().len(),
            forall|i: int|
                0 <= i < ids.len() ==> (#[trigger] ids[i])@ == self.repository_refs()[i].id_view(),
    {
        let refs = self.all_repository_refs();
        let mut ids: Vec<String> = Vec::new();
        let mut i: usize = 0;
        while i < refs.len()
            invariant
                i <= refs.len(),
                ids.len() == i,
                forall|k: int| 0 <= k < i ==> (#[trigger] ids[k])@ == refs@[k].id_view(),
            decreases refs.len() - i,
        {
            ids.push(refs[i].id());
            i = i + 1;
        }
        ids
    }
}

impl Default for AppConfig {
    /// The registry without any account.
    fn default() -> (config: AppConfig)
        ensures
            config.repository_refs().len() == 0,
            config.debug_view() is None,
            config.labels_view().priority_labels@.len() == 0,
            config.labels_view().priority_timeframe is None,
            config.colors_view().issue_id@ == "magenta"@,
            config.colors_view().title@ == "blue"@,
            config.colors_view().tags@ == "green"@,
    {
        let config = AppConfig {
            debug: None,
            github_com: Vec::new(),
            gitlab_com: Vec::new(),
            jira: Vec::new(),
            labels: LabelConfig { priority_labels: Vec::new(), priority_timeframe: None },
            colors: Colors {
                issue_id: String::from_str("magenta"),
                title: String::from_str("blue"),
                tags: String::from_str("green"),
            },
        };
        config
    }
}

/// What `first_match` finds is the first repository that meets `pred`,
/// and it is `None` only where none meets it.
pub proof fn lemma_first_match(
    refs: Seq<TaskIssueProvider>,
    pred: spec_fn(TaskIssueProvider) -> bool,
)
    ensures
        is_first_match(refs, pred, first_match(refs, pred)),
    decreases refs.len(),
{
    if refs.len() == 0 {
    } else if pred(refs[0]) {
        assert(refs[0] == first_match(refs, pred)->0);
    } else {
        let rest = refs.drop_first();
        lemma_first_match(rest, pred);
        match first_match(rest, pred) {
            Some(p) => {
                let i = choose|i: int|
                    0 <= i < rest.len() && #[trigger] rest[i] == p && pred(rest[i]) && forall|j: int|
                        0 <= j < i ==> !pred(#[trigger] rest[j]);
                assert(refs[i + 1] == p);
                assert forall|j: int| 0 <= j < i + 1 implies !pred(#[trigger] refs[j]) by {
                    if j > 0 {
                        assert(refs[j] == rest[j - 1]);
                    }
                }
            },
            None => {
                assert forall|j: int| 0 <= j < refs.len() implies !pred(#[trigger] refs[j]) by {
                    if j > 0 {
                        assert(refs[j] == rest[j - 1]);
                    }
                }
            },
        }
    }
}

/// A search has one answer: two answers to the same search are the same.
pub proof fn lemma_first_match_is_unique(
    refs: Seq<TaskIssueProvider>,
    pred: spec_fn(TaskIssueProvider) -> bool,
    r1: Option<TaskIssueProvider>,
    r2: Option<TaskIssueProvider>,
)
    requires
        is_first_match(refs, pred, r1),
        is_first_match(refs, pred, r2),
    ensures
        r1 == r2,
{
    if r1 is Some && r2 is Some {
        let i1 = choose|i: int|
            0 <= i < refs.len() && #[trigger] refs[i] == r1->0 && pred(refs[i]) && forall|j: int|
                0 <= j < i ==> !pred(#[trigger] refs[j]);
        let i2 = choose|i: int|
            0 <= i < refs.len() && #[trigger] refs[i] == r2->0 && pred(refs[i]) && forall|j: int|
                0 <= j < i ==> !pred(#[trigger] refs[j]);
        assert(i1 == i2);
    }
}

/// The search for the default finds nothing where no repository is the
/// default for new tasks, and where exactly one is, it finds that one,
/// however many repositories there are.
pub proof fn lemma_find_default(refs: Seq<TaskIssueProvider>, k: int)
    ensures
        (forall|i: int|
            0 <= i < refs.len() ==> !is_default_for_new_tasks((#[trigger] refs[i]).defaults_view()))
            ==> first_match(refs, is_new_task_default()) is None,
        (0 <= k < refs.len() && is_default_for_new_tasks(refs[k].defaults_view()) && forall|
            i: int,
        |
            0 <= i < refs.len() && i != k ==> !is_default_for_new_tasks(
                (#[trigger] refs[i]).defaults_view(),
            )) ==> first_match(refs, is_new_task_default()) == Some(refs[k]),
{
    lemma_first_match(refs, is_new_task_default());
    let r = first_match(refs, is_new_task_default());
    if r is None {
        if 0 <= k < refs.len() {
            assert(!is_new_task_default()(refs[k]));
        }
    }
}

/// In a registry an id names at most one repository: where the search by
/// id has an answer, every repository with that id is that answer.
pub proof fn lemma_id_names_one_repository(refs: Seq<TaskIssueProvider>, id: Seq<char>, k: int)
    requires
        distinct_ids(refs),
        0 <= k < refs.len(),
        refs[k].id_view() == id,
    ensures
        first_match(refs, has_id(id)) == Some(refs[k]),
{
    lemma_first_match(refs, has_id(id));
    let r = first_match(refs, has_id(id));
    assert(has_id(id)(refs[k]));
    let i = choose|i: int|
        0 <= i < refs.len() && #[trigger] refs[i] == r->0 && has_id(id)(refs[i]) && forall|j: int|
            0 <= j < i ==> !has_id(id)(#[trigger] refs[j]);
    if i < k {
        assert(refs[i].id_view() != refs[k].id_view());
    } else if k < i {
        assert(refs[k].id_view() != refs[i].id_view());
    }
}

} // verus!
