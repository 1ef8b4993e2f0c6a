//! The audit of deploy keys: which repository has keys that were added by someone who is
//! not a member of the organization.

use vstd::hash_map::StringHashMap;
use vstd::prelude::*;
use vstd::string::*;

use crate::organization::Bootstrap;
use crate::paging::PageQuery;
use crate::paint::{Line, Style};
use crate::progress::ProgressTracker;
use crate::records::{Member, Repository};

verus! {

/// How many members a page has.
pub const MEMBERS_PER_PAGE: u8 = 75;

/// A key that gives access to one repository.
#[derive(Debug, Hash)]
pub struct DeployKey {
    pub id: u64,
    pub key: String,
    pub url: String,
    pub title: String,
    pub verified: bool,
    pub created_at: String,
    pub read_only: bool,
    pub added_by: String,
    pub last_used: Option<String>,
    pub enabled: bool,
}

impl PartialEq for DeployKey {
    fn eq(&self, other: &DeployKey) -> (r: bool) {
        self.id == other.id && self.key == other.key && self.url == other.url && self.title
            == other.title && self.verified == other.verified && self.created_at
            == other.created_at && self.read_only == other.read_only && self.added_by
            == other.added_by && self.enabled == other.enabled && match (
            &self.last_used,
            &other.last_used,
        ) {
            (Some(a), Some(b)) => *a == *b,
            (None, None) => true,
            _ => false,
        }
    }
}

impl vstd::std_specs::cmp::PartialEqSpecImpl for DeployKey {
    open spec fn obeys_eq_spec() -> bool {
        true
    }

    open spec fn eq_spec(&self, other: &DeployKey) -> bool {
        &&& self.id == other.id
        &&& self.key@ == other.key@
        &&& self.url@ == other.url@
        &&& self.title@ == other.title@
        &&& self.verified == other.verified
        &&& self.created_at@ == other.created_at@
        &&& self.read_only == other.read_only
        &&& self.added_by@ == other.added_by@
        &&& self.enabled == other.enabled
        &&& crate::request::option_view(self.last_used) == crate::request::option_view(
            other.last_used,
        )
    }
}

impl Eq for DeployKey {

}

/// The line that reports a key.
pub open spec fn key_line(repository: Seq<char>, key: DeployKey, is_member: bool) -> Seq<
    (Style, Seq<char>),
> {
    seq![
        (Style::White, repository),
        (Style::Plain, " has deploy key "@),
        (Style::Yellow, key.title@),
        (Style::Plain, " "@),
        if is_member {
            (Style::Yellow, "added by member"@)
        } else {
            (Style::Red, "added by non-member"@)
        },
        (Style::Plain, ": "@),
        (Style::White, key.added_by@),
    ]
}

/// The lines that report the keys of a repository: of every key where all are wanted,
/// else of those that no member added.
pub open spec fn key_lines(
    repository: Seq<char>,
    keys: Seq<DeployKey>,
    members: Set<Seq<char>>,
    all: bool,
) -> Seq<Seq<(Style, Seq<char>)>>
    decreases keys.len(),
{
    if keys.len() == 0 {
        Seq::empty()
    } else {
        let before = key_lines(repository, keys.drop_last(), members, all);
        let is_member = members.contains(keys.last().added_by@);
        if all || !is_member {
            before.push(key_line(repository, keys.last(), is_member))
        } else {
            before
        }
    }
}

/// The line that reports a key, if it is to be reported.
pub fn report_key(
    repository: &str,
    key: &DeployKey,
    members: &StringHashMap<Member>,
    all: bool,
) -> (r: Option<Line>)
    ensures
        match r {
            Some(line) => {
                &&& all || !members@.contains_key(key.added_by@)
                &&& line@ == key_line(repository@, *key, members@.contains_key(key.added_by@))
            },
            None => !all && members@.contains_key(key.added_by@),
        },
{
    let is_member = members.contains_key(key.added_by.as_str());
    match (all, is_member) {
        // They are a member, and not all are wanted, so this key is skipped.
        (false, true) => None,
        _ => {
            let start = Line::of(Style::White, repository).then_text(
                Style::Plain,
                " has deploy key ",
            ).then_text(Style::Yellow, key.title.as_str()).then_text(Style::Plain, " ");
            let added = if is_member {
                start.then_text(Style::Yellow, "added by member")
            } else {
                start.then_text(Style::Red, "added by non-member")
            };
            let line = added.then_text(Style::Plain, ": ").then_text(
                Style::White,
                key.added_by.as_str(),
            );
            assert(line@ =~= key_line(repository@, *key, is_member));
            Some(line)
        },
    }
}

/// The lines that report the keys of a repository.
pub fn report_keys(
    repository: &str,
    keys: &Vec<DeployKey>,
    members: &StringHashMap<Member>,
    all: bool,
) -> (lines: Vec<Line>)
    ensures
        crate::paint::lines_view(lines@) == key_lines(repository@, keys@, members@.dom(), all),
{
    let mut lines: Vec<Line> = Vec::new();
    let mut i: usize = 0;
    assert(keys@.take(0) =~= Seq::empty());
    assert(crate::paint::lines_view(lines@) =~= Seq::empty());
    while i < keys.len()
        invariant
            i <= keys.len(),
            crate::paint::lines_view(lines@) == key_lines(
                repository@,
                keys@.take(i as int),
                members@.dom(),
                all,
            ),
        decreases keys.len() - i,
    {
        let ghost before = lines@;
        proof {
            assert(keys@.take(i + 1).drop_last() =~= keys@.take(i as int));
            assert(keys@.take(i + 1).last() == keys@[i as int]);
        }
        if let Some(line) = report_key(repository, &keys[i], members, all) {
            assert(crate::paint::lines_view(before.push(line)) =~= crate::paint::lines_view(
                before,
            ).push(line@));
            lines.push(line);
        }
        i += 1;
    }
    assert(keys@.take(i as int) =~= keys@);
    lines
}

/// The listing of the members of the organization.
pub fn members_query(bootstrap: &Bootstrap) -> (r: PageQuery)
    ensures
        r@ == crate::organization::listing(
            crate::organization::org_path(bootstrap.org@, "/members"@),
            MEMBERS_PER_PAGE as int,
        ),
{
    let mut path = "/orgs/".to_owned();
    path.append(bootstrap.org.as_str());
    path.append("/members");
    PageQuery {
        path,
        page_size: MEMBERS_PER_PAGE,
        retries: crate::organization::RETRIES,
        params: None,
    }
}

/// The title of the audit.
pub open spec fn title_line() -> Seq<(Style, Seq<char>)> {
    seq![(Style::BoldWhite, "GitHub Deploy Key Audit"@)]
}

/// The line that says that the members are fetched.
pub open spec fn fetching_members_line() -> Seq<(Style, Seq<char>)> {
    seq![(Style::Yellow, "Fetching all organization members"@)]
}

/// The line that says that the repositories are looked at.
pub open spec fn checking_keys_line() -> Seq<(Style, Seq<char>)> {
    seq![
        (
            Style::Yellow,
            "Finally the big one, I'm going to check each repository one by one to find deploy keys and their access. This is going to take a while..."@,
        ),
    ]
}

/// The title of the audit.
pub fn say_title() -> (line: Line)
    ensures
        line@ == title_line(),
{
    let line = Line::of(Style::BoldWhite, "GitHub Deploy Key Audit");
    assert(line@ =~= title_line());
    line
}

/// The line that says that the members are fetched.
pub fn say_fetching_members() -> (line: Line)
    ensures
        line@ == fetching_members_line(),
{
    let line = Line::of(Style::Yellow, "Fetching all organization members");
    assert(line@ =~= fetching_members_line());
    line
}

/// The line that says that the repositories are looked at.
pub fn say_checking_keys() -> (line: Line)
    ensures
        line@ == checking_keys_line(),
{
    let line = Line::of(
        Style::Yellow,
        "Finally the big one, I'm going to check each repository one by one to find deploy keys and their access. This is going to take a while...",
    );
    assert(line@ =~= checking_keys_line());
    line
}

/// The line that says that the members could not be fetched.
pub open spec fn members_error_line(error: Seq<char>) -> Seq<(Style, Seq<char>)> {
    seq![
        (Style::Red, "I couldn't fetch the organization members"@),
        (Style::Plain, ": "@),
        (Style::Plain, error),
    ]
}

/// The line that says that the deploy keys of a repository could not be fetched.
pub open spec fn keys_error_line(repository: Seq<char>, error: Seq<char>) -> Seq<
    (Style, Seq<char>),
> {
    seq![
        (Style::White, repository),
        (Style::Plain, " "@),
        (Style::Red, "I couldn't fetch the repository deploy keys"@),
        (Style::Plain, ": "@),
        (Style::Plain, error),
    ]
}

/// What comes of fetching the members: how many there are and who, by login, or the line
/// that the audit stops with.
pub fn take_members(fetched: Result<Vec<Member>, String>) -> (r: Result<
    (Line, StringHashMap<Member>),
    Line,
>)
    ensures
        match (fetched, r) {
            (Ok(members), Ok((line, map))) => {
                &&& map@ == crate::listing::indexed(members@)
                &&& line@ == crate::organization::found_line(map@.len())
            },
            (Err(error), Err(line)) => line@ == members_error_line(error@),
            _ => false,
        },
{
    match crate::listing::index_fetched(fetched) {
        Ok(map) => {
            Ok((crate::organization::say_found(map.len()), map))
        },
        Err(error) => {
            let line = Line::of(Style::Red, "I couldn't fetch the organization members").then_text(
                Style::Plain,
                ": ",
            ).then_text(Style::Plain, error.as_str());
            assert(line@ =~= members_error_line(error@));
            Err(line)
        },
    }
}

/// An audit under way: the members, the repositories, and how many of these are done.
pub struct DeployKeyAudit {
    all: bool,
    members: StringHashMap<Member>,
    repositories: Vec<Repository>,
    done: usize,
    tracker: ProgressTracker,
}

/// An audit under way, as mathematics: whether all keys are wanted, the logins of the
/// members, the names of the repositories, and how many of these are done.
#[verifier::ext_equal]
pub struct DeployKeyAuditModel {
    pub all: bool,
    pub members: Set<Seq<char>>,
    pub repositories: Seq<Seq<char>>,
    pub done: nat,
}

impl View for DeployKeyAudit {
    type V = DeployKeyAuditModel;

    closed spec fn view(&self) -> DeployKeyAuditModel {
        DeployKeyAuditModel {
            all: self.all,
            members: self.members@.dom(),
            repositories: crate::organization::names(self.repositories@),
            done: self.done as nat,
        }
    }
}

/// What an audit shows once a repository is done: its keys, and at times the progress.
pub open spec fn repository_lines(
    total: nat,
    done: nat,
    repository: Seq<char>,
    keys: Seq<DeployKey>,
    members: Set<Seq<char>>,
    all: bool,
) -> Seq<Seq<(Style, Seq<char>)>> {
    let reported = key_lines(repository, keys, members, all);
    if (done + 1) % crate::progress::one_percent_of(total) == 0 {
        reported.push(crate::progress::progress_line(done + 1))
    } else {
        reported
    }
}

impl DeployKeyAudit {
    /// Whether the progress is that of the repositories that are done.
    pub closed spec fn well_formed(self) -> bool {
        &&& self.done <= self.repositories@.len()
        &&& self.tracker.progress == self.done
        &&& self.tracker.one_percent == crate::progress::one_percent_of(self.repositories@.len())
        &&& self.repositories@.len() > 0 ==> self.tracker.one_percent > 0
    }

    /// An audit of which no repository is done.
    pub fn new(
        all: bool,
        members: StringHashMap<Member>,
        repositories: Vec<Repository>,
    ) -> (r: DeployKeyAudit)
        ensures
            r.well_formed(),
            r@ == (DeployKeyAuditModel {
                all,
                members: members@.dom(),
                repositories: crate::organization::names(repositories@),
                done: 0,
            }),
    {
        let tracker = ProgressTracker::new(repositories.len());
        DeployKeyAudit { all, members, repositories, done: 0, tracker }
    }

    /// The listing of the deploy keys that is due next; nothing where all repositories are
    /// done.
    pub fn next_query(&self, bootstrap: &Bootstrap) -> (r: Option<PageQuery>)
        ensures
            match r {
                Some(query) => {
                    &&& self@.done < self@.repositories.len()
                    &&& query@ == crate::organization::listing(
                        crate::organization::repo_path(
                            bootstrap.org@,
                            self@.repositories[self@.done as int],
                            "/keys"@,
                        ),
                        crate::organization::ITEMS_PER_PAGE as int,
                    )
                },
                None => self@.done >= self@.repositories.len(),
            },
    {
        if self.done < self.repositories.len() {
            Some(bootstrap.repo_listing(self.repositories[self.done].name.as_str(), "/keys"))
        } else {
            None
        }
    }

    /// Takes in the deploy keys of the repository that is due: the lines to show, or the
    /// line that the audit stops with.
    pub fn take_keys(&mut self, fetched: Result<Vec<DeployKey>, String>) -> (r: Result<
        Vec<Line>,
        Line,
    >)
        requires
            old(self).well_formed(),
            old(self)@.done < old(self)@.repositories.len(),
        ensures
            final(self).well_formed(),
            match (fetched, r) {
                (Ok(keys), Ok(lines)) => {
                    &&& final(self)@ == (DeployKeyAuditModel {
                        done: old(self)@.done + 1,
                        ..old(self)@
                    })
                    &&& crate::paint::lines_view(lines@) == repository_lines(
                        old(self)@.repositories.len(),
                        old(self)@.done,
                        old(self)@.repositories[old(self)@.done as int],
                        keys@,
                        old(self)@.members,
                        old(self)@.all,
                    )
                },
                (Err(error), Err(line)) => {
                    &&& final(self)@ == old(self)@
                    &&& line@ == keys_error_line(
                        old(self)@.repositories[old(self)@.done as int],
                        error@,
                    )
                },
                _ => false,
            },
    {
        match fetched {
            Ok(keys) => {
                let mut lines = report_keys(
                    self.repositories[self.done].name.as_str(),
                    &keys,
                    &self.members,
                    self.all,
                );
                assert(self.done < self.repositories.len());
                self.done = self.done + 1;
                if let Some(line) = self.tracker.tick() {
                    let ghost before = lines@;
                    assert(crate::paint::lines_view(before.push(line))
                        =~= crate::paint::lines_view(before).push(line@));
                    lines.push(line);
                }
                Ok(lines)
            },
            Err(error) => {
                let line = Line::of(
                    Style::White,
                    self.repositories[self.done].name.as_str(),
                ).then_text(Style::Plain, " ").then_text(
                    Style::Red,
                    "I couldn't fetch the repository deploy keys",
                ).then_text(Style::Plain, ": ").then_text(Style::Plain, error.as_str());
                assert(line@ =~= keys_error_line(
                    self.repositories@[self.done as int].name@,
                    error@,
                ));
                Err(line)
            },
        }
    }
}

/// A key counts as added by a member exactly where one of the fetched members has the
/// login of whoever added it.
pub proof fn a_member_is_who_was_fetched(members: Seq<Member>, login: Seq<char>)
    ensures
        crate::listing::indexed(members).contains_key(login) <==> exists|i: int|
            0 <= i < members.len() && (#[trigger] members[i]).login@ == login,
{
    crate::organization::members_are_filed_by_login(members);
}

/// A key that no member added is always reported, whether all are wanted or not.
pub proof fn a_key_of_a_non_member_is_always_reported(
    repository: Seq<char>,
    keys: Seq<DeployKey>,
    members: Set<Seq<char>>,
    all: bool,
    i: int,
)
    requires
        0 <= i < keys.len(),
        !members.contains(keys[i].added_by@),
    ensures
        key_lines(repository, keys, members, all).contains(key_line(repository, keys[i], false)),
    decreases keys.len(),
{
    let before = key_lines(repository, keys.drop_last(), members, all);
    let whole = key_lines(repository, keys, members, all);
    let line = key_line(repository, keys[i], false);
    if i == keys.len() - 1 {
        assert(whole[before.len() as int] == line);
    } else {
        assert(keys.drop_last()[i] == keys[i]);
        a_key_of_a_non_member_is_always_reported(repository, keys.drop_last(), members, all, i);
        let k = choose|k: int| 0 <= k < before.len() && before[k] == line;
        assert(whole[k] == line);
    }
}

/// Where all keys are wanted, every key is reported, one line each, in order.
pub proof fn all_keys_are_reported(
    repository: Seq<char>,
    keys: Seq<DeployKey>,
    members: Set<Seq<char>>,
)
    ensures
        key_lines(repository, keys, members, true).len() == keys.len(),
        forall|i: int|
            0 <= i < keys.len() ==> #[trigger] key_lines(repository, keys, members, true)[i]
                == key_line(repository, keys[i], members.contains(keys[i].added_by@)),
    decreases keys.len(),
{
    if keys.len() > 0 {
        all_keys_are_reported(repository, keys.drop_last(), members);
        let before = key_lines(repository, keys.drop_last(), members, true);
        let whole = key_lines(repository, keys, members, true);
        assert forall|i: int| 0 <= i < keys.len() implies #[trigger] whole[i] == key_line(
            repository,
            keys[i],
            members.contains(keys[i].added_by@),
        ) by {
            if i < keys.len() - 1 {
                assert(whole[i] == before[i]);
                assert(keys.drop_last()[i] == keys[i]);
            }
        }
    }
}

/// Where not all keys are wanted, exactly those that no member added are reported, as
/// they would be if they were the only ones.
pub proof fn otherwise_only_keys_of_non_members_are(
    repository: Seq<char>,
    keys: Seq<DeployKey>,
    members: Set<Seq<char>>,
)
    ensures
        key_lines(repository, keys, members, false) == key_lines(
            repository,
            keys.filter(|key: DeployKey| !members.contains(key.added_by@)),
            members,
            true,
        ),
    decreases keys.len(),
{
    let outside = |key: DeployKey| !members.contains(key.added_by@);
    reveal(Seq::filter);
    if keys.len() > 0 {
        otherwise_only_keys_of_non_members_are(repository, keys.drop_last(), members);
        let before = keys.drop_last().filter(outside);
        if outside(keys.last()) {
            assert(keys.filter(outside) == before.push(keys.last()));
            assert(before.push(keys.last()).drop_last() =~= before);
        } else {
            assert(keys.filter(outside) == before);
        }
    }
}

/// What an audit shows for its first `n` repositories.
pub open spec fn audit_lines(
    names: Seq<Seq<char>>,
    keys: Seq<Seq<DeployKey>>,
    members: Set<Seq<char>>,
    all: bool,
    n: nat,
) -> Seq<Seq<(Style, Seq<char>)>>
    decreases n,
{
    if n == 0 {
        Seq::empty()
    } else {
        let done = (n - 1) as nat;
        audit_lines(names, keys, members, all, done) + repository_lines(
            names.len(),
            done,
            names[done as int],
            keys[done as int],
            members,
            all,
        )
    }
}

/// How many keys the first `n` repositories have.
pub open spec fn key_count(keys: Seq<Seq<DeployKey>>, n: nat) -> nat
    decreases n,
{
    if n == 0 {
        0
    } else {
        key_count(keys, (n - 1) as nat) + keys[n - 1].len()
    }
}

/// An audit for which all keys are wanted shows every key of every repository once, and
/// the reports of its progress.
pub proof fn an_audit_shows_every_key_once(
    names: Seq<Seq<char>>,
    keys: Seq<Seq<DeployKey>>,
    members: Set<Seq<char>>,
    n: nat,
)
    requires
        n <= names.len(),
    ensures
        audit_lines(names, keys, members, true, n).len() == key_count(keys, n)
            + crate::progress::reports(crate::progress::one_percent_of(names.len()), n),
    decreases n,
{
    if n > 0 {
        let done = (n - 1) as nat;
        an_audit_shows_every_key_once(names, keys, members, done);
        all_keys_are_reported(names[done as int], keys[done as int], members);
    }
}

/// The keys that each reply brings; none where it is an error.
pub open spec fn keys_in(replies: Seq<Result<Vec<DeployKey>, String>>) -> Seq<Seq<DeployKey>> {
    replies.map_values(
        |reply: Result<Vec<DeployKey>, String>|
            match reply {
                Ok(keys) => keys@,
                Err(_) => Seq::empty(),
            },
    )
}

/// How far the replies lead through the repositories: each of the first `done` replies
/// brings keys, and then the repositories or the replies are at an end, or the next reply
/// is an error, which the audit stops with.
pub open spec fn led_through(
    names: Seq<Seq<char>>,
    replies: Seq<Result<Vec<DeployKey>, String>>,
    done: nat,
    stop: Option<Line>,
) -> bool {
    &&& done <= names.len()
    &&& done <= replies.len()
    &&& forall|i: int| 0 <= i < done ==> (#[trigger] replies[i]) is Ok
    &&& match stop {
        Some(line) => {
            &&& done < names.len()
            &&& done < replies.len()
            &&& replies[done as int] matches Err(error) && line@ == keys_error_line(
                names[done as int],
                error@,
            )
        },
        None => done == names.len() || done == replies.len(),
    }
}

/// The audit of one repository after the other, over the replies to its queries: the
/// lines to show, how many repositories are done, and the line that the audit stops with,
/// if it stops before the end.
pub fn audit_repositories(
    all: bool,
    members: StringHashMap<Member>,
    repositories: Vec<Repository>,
    replies: Vec<Result<Vec<DeployKey>, String>>,
) -> (r: (Vec<Line>, usize, Option<Line>))
    ensures
        led_through(
            crate::organization::names(repositories@),
            replies@,
            r.1 as nat,
            r.2,
        ),
        crate::paint::lines_view(r.0@) == audit_lines(
            crate::organization::names(repositories@),
            keys_in(replies@),
            members@.dom(),
            all,
            r.1 as nat,
        ),
{
    let ghost names = crate::organization::names(repositories@);
    let ghost logins = members@.dom();
    let ghost brought = replies@;
    let count = repositories.len();
    let mut audit = DeployKeyAudit::new(all, members, repositories);
    let mut lines: Vec<Line> = Vec::new();
    let mut done: usize = 0;
    assert(crate::paint::lines_view(lines@) =~= Seq::empty());
    for reply in it: replies
        invariant
            names == crate::organization::names(repositories@),
            logins == members@.dom(),
            brought == replies@,
            it.seq() == brought,
            done == it.index(),
            done <= count,
            count == names.len(),
            audit.well_formed(),
            audit@ == (DeployKeyAuditModel {
                all,
                members: logins,
                repositories: names,
                done: done as nat,
            }),
            forall|i: int| 0 <= i < done ==> (#[trigger] brought[i]) is Ok,
            crate::paint::lines_view(lines@) == audit_lines(
                names,
                keys_in(brought),
                logins,
                all,
                done as nat,
            ),
    {
        if done == count {
            return (lines, done, None);
        }
        match audit.take_keys(reply) {
            Ok(mut more) => {
                let ghost before = lines@;
                let ghost added = more@;
                lines.append(&mut more);
                done += 1;
                assert(crate::paint::lines_view(before + added) =~= crate::paint::lines_view(before)
                    + crate::paint::lines_view(added));
            },
            Err(line) => {
                return (lines, done, Some(line));
            },
        }
    }
    (lines, done, None)
}

/// How an audit ends.
pub enum AuditEnd {
    /// The members could not be fetched.
    NoMembers(Line),
    /// The repositories could not be fetched.
    NoRepositories(String),
    /// So many repositories are done. The keys of the next could not be fetched, or it is
    /// not known whether they can, or there is none.
    Audited(usize, Option<Line>),
}

/// What an audit shows before it asks for the repositories.
pub open spec fn lines_before_repositories(members: Seq<Member>) -> Seq<Seq<(Style, Seq<char>)>> {
    seq![
        title_line(),
        fetching_members_line(),
        crate::organization::found_line(crate::listing::indexed(members).len()),
        crate::organization::fetching_repositories_line(),
    ]
}

/// What an audit shows before it asks for keys.
pub open spec fn lines_before_keys(members: Seq<Member>, repositories: Seq<Repository>) -> Seq<
    Seq<(Style, Seq<char>)>,
> {
    lines_before_repositories(members) + crate::organization::found_lines(repositories) + seq![
        checking_keys_line(),
    ]
}

/// The whole audit, over what came of fetching the members, the repositories, and the
/// keys of one repository after the other: the lines to show, and how it ends.
pub fn run_audit(
    bootstrap: &Bootstrap,
    all: bool,
    members: Result<Vec<Member>, String>,
    repositories: Result<Vec<Repository>, String>,
    replies: Vec<Result<Vec<DeployKey>, String>>,
) -> (r: (Vec<Line>, AuditEnd))
    ensures
        match (members, repositories) {
            (Err(error), _) => {
                &&& crate::paint::lines_view(r.0@) == seq![title_line(), fetching_members_line()]
                &&& r.1 matches AuditEnd::NoMembers(line) && line@ == members_error_line(error@)
            },
            (Ok(members), Err(error)) => {
                &&& crate::paint::lines_view(r.0@) == lines_before_repositories(members@)
                &&& r.1 matches AuditEnd::NoRepositories(message) && crate::paint::shown(
                    crate::organization::repositories_error_line(error@),
                    message@,
                )
            },
            (Ok(members), Ok(repositories)) => {
                &&& r.1 matches AuditEnd::Audited(done, stop) && led_through(
                    crate::organization::names(repositories@),
                    replies@,
                    done as nat,
                    stop,
                ) && crate::paint::lines_view(r.0@) == lines_before_keys(members@, repositories@)
                    + audit_lines(
                    crate::organization::names(repositories@),
                    keys_in(replies@),
                    crate::listing::indexed(members@).dom(),
                    all,
                    done as nat,
                )
            },
        },
{
    let mut lines = vec![say_title(), say_fetching_members()];
    assert(crate::paint::lines_view(lines@) =~= seq![title_line(), fetching_members_line()]);
    let (found, members) = match take_members(members) {
        Ok(taken) => taken,
        Err(line) => {
            return (lines, AuditEnd::NoMembers(line));
        },
    };
    lines.push(found);
    lines.push(crate::organization::say_fetching_repositories());
    let ghost first = lines@;
    let (mut more, fetched) = bootstrap.fetch_all_repositories(repositories);
    let ghost second = more@;
    lines.append(&mut more);
    let repositories = match fetched {
        Ok(repositories) => repositories,
        Err(message) => {
            assert(lines@ =~= first);
            return (lines, AuditEnd::NoRepositories(message));
        },
    };
    lines.push(say_checking_keys());
    let ghost third = lines@;
    let (mut reported, done, stop) = audit_repositories(all, members, repositories, replies);
    let ghost last = reported@;
    lines.append(&mut reported);
    proof {
        assert(crate::paint::lines_view(third) =~= crate::paint::lines_view(first)
            + crate::paint::lines_view(second) + seq![checking_keys_line()]);
        assert(crate::paint::lines_view(third + last) =~= crate::paint::lines_view(third)
            + crate::paint::lines_view(last));
    }
    (lines, AuditEnd::Audited(done, stop))
}

} // verus!
