//! The audit of deploy keys: which keys are reported, in which order, and how it ends.

use vstd::hash_map::StringHashMap;
use vstd::prelude::*;

use crate::deploy_key::{AuditEnd, DeployKey, DeployKeyAudit};
use crate::organization::Bootstrap;
use crate::paging::PageQuery;
use crate::paint::{Line, Style};
use crate::records::{Member, Repository};

verus! {

/// The pieces of the line that reports a key.
pub open spec fn key_pieces(repository: Seq<char>, key: DeployKey, is_member: bool) -> Seq<
    (Style, Seq<char>),
> {
    seq![
        (Style::White, repository),
        (Style::Plain, " has deploy key "@),
        (Style::Yellow, key.title@),
        (Style::Plain, " "@),
        if is_member {
            (Style::Yellow, "added by member"@)
        } else {
            (Style::Red, "added by non-member"@)
        },
        (Style::Plain, ": "@),
        (Style::White, key.added_by@),
    ]
}

/// The pieces of the line that reports the progress.
pub open spec fn progress_pieces(done: int) -> Seq<(Style, Seq<char>)> {
    seq![
        (Style::Plain, "Processed "@),
        (Style::Blue, crate::text::decimal(done as nat)),
        (Style::Plain, " repositories"@),
    ]
}

/// The pieces of the line that says that the keys of a repository could not be fetched.
pub open spec fn keys_error_pieces(repository: Seq<char>, error: Seq<char>) -> Seq<
    (Style, Seq<char>),
> {
    seq![
        (Style::White, repository),
        (Style::Plain, " "@),
        (Style::Red, "I couldn't fetch the repository deploy keys"@),
        (Style::Plain, ": "@),
        (Style::Plain, error),
    ]
}

/// The keys that are to be reported: all of them, or those that no member added.
pub open spec fn wanted(keys: Seq<DeployKey>, members: Set<Seq<char>>, all: bool) -> Seq<
    DeployKey,
> {
    keys.filter(|key: DeployKey| all || !members.contains(key.added_by@))
}

/// A key is reported exactly where all are wanted or no member added it, and then with the
/// repository, its title, who added it, and whether they are a member.
pub proof fn a_key_is_reported_unless_a_member_added_it(
    repository: &str,
    key: &DeployKey,
    members: &StringHashMap<Member>,
    all: bool,
    r: Option<Line>,
)
    requires
        call_ensures(crate::deploy_key::report_key, (repository, key, members, all), r),
    ensures
        r is Some <==> all || !members@.contains_key(key.added_by@),
        r matches Some(line) ==> crate::laws::paint::reads(
            line,
            key_pieces(repository@, *key, members@.contains_key(key.added_by@)),
        ),
{
    if let Some(line) = r {
        crate::laws::paint::a_line_is_its_pieces(line, line@);
    }
}

proof fn reported_keys_are_the_wanted_ones(
    repository: Seq<char>,
    keys: Seq<DeployKey>,
    members: Set<Seq<char>>,
    all: bool,
)
    ensures
        ({
            let lines = crate::deploy_key::key_lines(repository, keys, members, all);
            let shown = wanted(keys, members, all);
            &&& lines.len() == shown.len()
            &&& forall|k: int|
                0 <= k < shown.len() ==> #[trigger] lines[k] == key_pieces(
                    repository,
                    shown[k],
                    members.contains(shown[k].added_by@),
                )
        }),
    decreases keys.len(),
{
    reveal(Seq::filter);
    let pred = |key: DeployKey| all || !members.contains(key.added_by@);
    let lines = crate::deploy_key::key_lines(repository, keys, members, all);
    let shown = wanted(keys, members, all);
    if keys.len() > 0 {
        reported_keys_are_the_wanted_ones(repository, keys.drop_last(), members, all);
        let before = crate::deploy_key::key_lines(repository, keys.drop_last(), members, all);
        let fewer = wanted(keys.drop_last(), members, all);
        if all || !members.contains(keys.last().added_by@) {
            assert(shown =~= fewer.push(keys.last()));
            assert forall|k: int| 0 <= k < shown.len() implies #[trigger] lines[k] == key_pieces(
                repository,
                shown[k],
                members.contains(shown[k].added_by@),
            ) by {
                if k < fewer.len() {
                    assert(lines[k] == before[k]);
                    assert(shown[k] == fewer[k]);
                }
            }
        } else {
            assert(shown =~= fewer);
        }
    }
}

/// The keys of a repository are reported one line each, in order: all of them, or those that
/// no member added.
pub proof fn keys_are_reported_in_order(
    repository: &str,
    keys: &Vec<DeployKey>,
    members: &StringHashMap<Member>,
    all: bool,
    lines: Vec<Line>,
)
    requires
        call_ensures(crate::deploy_key::report_keys, (repository, keys, members, all), lines),
    ensures
        lines@.len() == wanted(keys@, members@.dom(), all).len(),
        forall|k: int|
            0 <= k < lines@.len() ==> crate::laws::paint::reads(
                #[trigger] lines@[k],
                key_pieces(
                    repository@,
                    wanted(keys@, members@.dom(), all)[k],
                    members@.contains_key(wanted(keys@, members@.dom(), all)[k].added_by@),
                ),
            ),
{
    reported_keys_are_the_wanted_ones(repository@, keys@, members@.dom(), all);
    crate::laws::paint::lines_are_viewed_one_by_one(lines@);
    assert forall|k: int| 0 <= k < lines@.len() implies crate::laws::paint::reads(
        #[trigger] lines@[k],
        key_pieces(
            repository@,
            wanted(keys@, members@.dom(), all)[k],
            members@.contains_key(wanted(keys@, members@.dom(), all)[k].added_by@),
        ),
    ) by {
        assert(crate::paint::lines_view(lines@)[k] == crate::deploy_key::key_lines(
            repository@,
            keys@,
            members@.dom(),
            all,
        )[k]);
    }
}

/// Which keys are wanted: each that no member added, each where all are, and no other.
pub proof fn a_wanted_key_is_one_of_the_keys(
    keys: Seq<DeployKey>,
    members: Set<Seq<char>>,
    all: bool,
)
    ensures
        forall|i: int|
            0 <= i < keys.len() && (all || !members.contains((#[trigger] keys[i]).added_by@))
                ==> wanted(keys, members, all).contains(keys[i]),
        forall|k: int|
            0 <= k < wanted(keys, members, all).len() ==> keys.contains(
                #[trigger] wanted(keys, members, all)[k],
            ) && (all || !members.contains(wanted(keys, members, all)[k].added_by@)),
    decreases keys.len(),
{
    reveal(Seq::filter);
    let shown = wanted(keys, members, all);
    if keys.len() > 0 {
        let fewer = wanted(keys.drop_last(), members, all);
        a_wanted_key_is_one_of_the_keys(keys.drop_last(), members, all);
        let last_wanted = all || !members.contains(keys.last().added_by@);
        assert(shown =~= if last_wanted {
            fewer.push(keys.last())
        } else {
            fewer
        });
        assert forall|i: int|
            0 <= i < keys.len() && (all || !members.contains(
                (#[trigger] keys[i]).added_by@,
            )) implies shown.contains(keys[i]) by {
            if i < keys.len() - 1 {
                assert(keys.drop_last()[i] == keys[i]);
                let k = choose|k: int| 0 <= k < fewer.len() && fewer[k] == keys[i];
                assert(shown[k] == keys[i]);
            } else {
                assert(shown[fewer.len() as int] == keys[i]);
            }
        }
        assert forall|k: int| 0 <= k < shown.len() implies keys.contains(#[trigger] shown[k]) && (
        all || !members.contains(shown[k].added_by@)) by {
            if k < fewer.len() {
                assert(shown[k] == fewer[k]);
                let i = choose|i: int|
                    0 <= i < keys.drop_last().len() && keys.drop_last()[i] == fewer[k];
                assert(keys[i] == shown[k]);
            } else {
                assert(keys[keys.len() - 1] == shown[k]);
            }
        }
    }
}

/// What comes of fetching the members is who they are, by login, and a line that says how
/// many logins there are; or a line that says that they could not be fetched, and why.
pub proof fn members_are_counted_by_login(
    fetched: Result<Vec<Member>, String>,
    r: Result<(Line, StringHashMap<Member>), Line>,
)
    requires
        call_ensures(crate::deploy_key::take_members, (fetched,), r),
    ensures
        match (fetched, r) {
            (Ok(members), Ok((line, map))) => {
                &&& forall|login: Seq<char>| #[trigger]
                    map@.contains_key(login) <==> exists|i: int|
                        0 <= i < members@.len() && (#[trigger] members@[i]).login@ == login
                &&& crate::laws::paint::reads(
                    line,
                    seq![
                        (Style::Green, "Success! I found: "@),
                        (Style::Plain, " "@),
                        (Style::Plain, crate::text::decimal(map@.dom().len())),
                    ],
                )
            },
            (Err(error), Err(line)) => crate::laws::paint::reads(
                line,
                seq![
                    (Style::Red, "I couldn't fetch the organization members"@),
                    (Style::Plain, ": "@),
                    (Style::Plain, error@),
                ],
            ),
            _ => false,
        },
{
    match (fetched, r) {
        (Ok(members), Ok((line, map))) => {
            crate::laws::paint::a_line_is_its_pieces(line, line@);
            logins_of_members(members@);
        },
        (Err(_), Err(line)) => {
            crate::laws::paint::a_line_is_its_pieces(line, line@);
        },
        _ => {},
    }
}

/// Who is a member is whose login came.
pub proof fn logins_of_members(members: Seq<Member>)
    ensures
        forall|login: Seq<char>| #[trigger]
            crate::listing::indexed(members).contains_key(login) <==> exists|i: int|
                0 <= i < members.len() && (#[trigger] members[i]).login@ == login,
{
    crate::organization::members_are_filed_by_login(members);
}

/// What is said at the start of the audit, before members are fetched, and before the
/// repositories are looked at.
pub proof fn the_audit_says_what_it_does(title: Line, fetching: Line, checking: Line)
    requires
        call_ensures(crate::deploy_key::say_title, (), title),
        call_ensures(crate::deploy_key::say_fetching_members, (), fetching),
        call_ensures(crate::deploy_key::say_checking_keys, (), checking),
    ensures
        crate::laws::paint::reads(title, seq![(Style::BoldWhite, "GitHub Deploy Key Audit"@)]),
        crate::laws::paint::reads(
            fetching,
            seq![(Style::Yellow, "Fetching all organization members"@)],
        ),
        crate::laws::paint::reads(
            checking,
            seq![
                (
                    Style::Yellow,
                    "Finally the big one, I'm going to check each repository one by one to find deploy keys and their access. This is going to take a while..."@,
                ),
            ],
        ),
{
    crate::laws::paint::a_line_is_its_pieces(title, title@);
    crate::laws::paint::a_line_is_its_pieces(fetching, fetching@);
    crate::laws::paint::a_line_is_its_pieces(checking, checking@);
}

/// An audit starts with nothing done, for the members and the repositories it is given.
pub proof fn an_audit_starts_with_nothing_done(
    all: bool,
    members: StringHashMap<Member>,
    repositories: Vec<Repository>,
    audit: DeployKeyAudit,
)
    requires
        call_ensures(DeployKeyAudit::new, (all, members, repositories), audit),
    ensures
        audit@.all == all,
        audit@.members == members@.dom(),
        audit@.done == 0,
        audit@.repositories.len() == repositories@.len(),
        forall|i: int|
            0 <= i < repositories@.len() ==> #[trigger] audit@.repositories[i]
                == repositories@[i].name@,
{
    crate::laws::organization::names_are_in_order(repositories@);
}

/// The keys that are due next are those of the first repository that is not done, listed
/// below it; nothing is due where all are done.
pub proof fn the_next_repository_is_due(
    audit: &DeployKeyAudit,
    bootstrap: &Bootstrap,
    r: Option<PageQuery>,
)
    requires
        call_ensures(DeployKeyAudit::next_query, (audit, bootstrap), r),
    ensures
        r is Some <==> audit@.done < audit@.repositories.len(),
        r matches Some(query) ==> crate::laws::organization::lists(
            query,
            "/repos/"@ + bootstrap.org@ + "/"@ + audit@.repositories[audit@.done as int] + "/keys"@,
            25,
        ),
{
    if let Some(query) = r {
        assert(query@.retries == 3);
        assert(query@.params is None);
    }
}

/// Whether the lines from `start` to `end` are what an audit shows of one repository: the
/// keys that are wanted, in order, and the progress where the repositories that are then
/// done are a multiple of a hundredth of all, rounded up.
pub open spec fn shows_repository(
    lines: Seq<Line>,
    start: int,
    end: int,
    total: int,
    place: int,
    name: Seq<char>,
    keys: Seq<DeployKey>,
    members: Set<Seq<char>>,
    all: bool,
) -> bool {
    let shown = wanted(keys, members, all);
    let reports = (place + 1) % ((total + 99) / 100) == 0;
    &&& 0 <= start <= end <= lines.len()
    &&& end - start == shown.len() + if reports {
        1int
    } else {
        0int
    }
    &&& forall|k: int|
        0 <= k < shown.len() ==> crate::laws::paint::reads(
            lines[start + k],
            key_pieces(name, #[trigger] shown[k], members.contains(shown[k].added_by@)),
        )
    &&& reports ==> crate::laws::paint::reads(lines[end - 1], progress_pieces(place + 1))
}

/// Lines that view as those of a repository are what an audit shows of it.
proof fn repository_is_shown(
    lines: Seq<Line>,
    start: int,
    end: int,
    total: nat,
    place: nat,
    name: Seq<char>,
    keys: Seq<DeployKey>,
    members: Set<Seq<char>>,
    all: bool,
)
    requires
        0 <= start <= end <= lines.len(),
        0 < total <= 9007199254740992,
        crate::paint::lines_view(lines).subrange(start, end)
            == crate::deploy_key::repository_lines(total, place, name, keys, members, all),
    ensures
        shows_repository(lines, start, end, total as int, place as int, name, keys, members, all),
{
    let views = crate::paint::lines_view(lines);
    let part = views.subrange(start, end);
    let shown = wanted(keys, members, all);
    let reported = crate::deploy_key::key_lines(name, keys, members, all);
    crate::laws::paint::lines_are_viewed_one_by_one(lines);
    reported_keys_are_the_wanted_ones(name, keys, members, all);
    crate::progress::one_percent_is_a_hundredth_rounded_up(total);
    assert(part.len() == end - start);
    assert forall|k: int| 0 <= k < shown.len() implies crate::laws::paint::reads(
        lines[start + k],
        key_pieces(name, #[trigger] shown[k], members.contains(shown[k].added_by@)),
    ) by {
        assert(part[k] == reported[k]);
        assert(views[start + k] == part[k]);
        assert(crate::laws::paint::reads(lines[start + k], views[start + k]));
    }
    if (place as int + 1) % ((total as int + 99) / 100) == 0 {
        assert(part[reported.len() as int] == crate::progress::progress_line(place + 1));
        assert(views[end - 1] == part[reported.len() as int]);
        assert(crate::laws::paint::reads(lines[end - 1], views[end - 1]));
    }
}

/// Keys that are taken in are those of the repository that is due: what is wanted of them is
/// shown, whichever its place, and the repository is done. An error is shown with the
/// repository, and nothing is done.
pub proof fn keys_that_are_taken_in_are_shown(
    audit: &mut DeployKeyAudit,
    fetched: Result<Vec<DeployKey>, String>,
    r: Result<Vec<Line>, Line>,
)
    requires
        call_ensures(DeployKeyAudit::take_keys, (audit, fetched), r),
        old(audit)@.done < old(audit)@.repositories.len() <= 9007199254740992,
    ensures
        final(audit)@.all == old(audit)@.all,
        final(audit)@.members == old(audit)@.members,
        final(audit)@.repositories == old(audit)@.repositories,
        match (fetched, r) {
            (Ok(keys), Ok(lines)) => {
                &&& final(audit)@.done == old(audit)@.done + 1
                &&& shows_repository(
                    lines@,
                    0,
                    lines@.len() as int,
                    old(audit)@.repositories.len() as int,
                    old(audit)@.done as int,
                    old(audit)@.repositories[old(audit)@.done as int],
                    keys@,
                    old(audit)@.members,
                    old(audit)@.all,
                )
            },
            (Err(error), Err(line)) => {
                &&& final(audit)@.done == old(audit)@.done
                &&& crate::laws::paint::reads(
                    line,
                    keys_error_pieces(
                        old(audit)@.repositories[old(audit)@.done as int],
                        error@,
                    ),
                )
            },
            _ => false,
        },
{
    match (fetched, r) {
        (Ok(keys), Ok(lines)) => {
            let views = crate::paint::lines_view(lines@);
            assert(views.len() == lines@.len());
            assert(views.subrange(0, lines@.len() as int) =~= views);
            repository_is_shown(
                lines@,
                0,
                lines@.len() as int,
                old(audit)@.repositories.len(),
                old(audit)@.done,
                old(audit)@.repositories[old(audit)@.done as int],
                keys@,
                old(audit)@.members,
                old(audit)@.all,
            );
        },
        (Err(_), Err(line)) => {
            crate::laws::paint::a_line_is_its_pieces(line, line@);
        },
        _ => {},
    }
}

/// Whether the lines from `first` on are what an audit shows of the first `done`
/// repositories, one after the other; `starts` says where each begins.
pub open spec fn shows_repositories(
    lines: Seq<Line>,
    first: int,
    starts: Seq<int>,
    repositories: Seq<Repository>,
    replies: Seq<Result<Vec<DeployKey>, String>>,
    members: Set<Seq<char>>,
    all: bool,
    done: int,
) -> bool {
    &&& starts.len() == done + 1
    &&& starts[0] == first
    &&& starts[done] == lines.len()
    &&& forall|i: int|
        0 <= i < done ==> shows_repository(
            lines,
            #[trigger] starts[i],
            starts[i + 1],
            repositories.len() as int,
            i,
            repositories[i].name@,
            replies[i]->Ok_0@,
            members,
            all,
        )
}

proof fn repositories_are_shown(
    lines: Seq<Line>,
    first: int,
    repositories: Seq<Repository>,
    replies: Seq<Result<Vec<DeployKey>, String>>,
    members: Set<Seq<char>>,
    all: bool,
    done: nat,
    n: nat,
) -> (starts: Seq<int>)
    requires
        n <= done <= repositories.len() <= 9007199254740992,
        done <= replies.len(),
        forall|i: int| 0 <= i < done ==> (#[trigger] replies[i]) is Ok,
        0 <= first <= lines.len(),
        crate::paint::lines_view(lines).skip(first) == crate::deploy_key::audit_lines(
            crate::organization::names(repositories),
            crate::deploy_key::keys_in(replies),
            members,
            all,
            done,
        ),
    ensures
        starts.len() == n + 1,
        starts[0] == first,
        first <= starts[n as int] <= lines.len(),
        crate::paint::lines_view(lines).subrange(first, starts[n as int])
            == crate::deploy_key::audit_lines(
            crate::organization::names(repositories),
            crate::deploy_key::keys_in(replies),
            members,
            all,
            n,
        ),
        forall|i: int|
            0 <= i < n ==> shows_repository(
                lines,
                #[trigger] starts[i],
                starts[i + 1],
                repositories.len() as int,
                i,
                repositories[i].name@,
                replies[i]->Ok_0@,
                members,
                all,
            ),
    decreases n,
{
    let names = crate::organization::names(repositories);
    let keys = crate::deploy_key::keys_in(replies);
    let views = crate::paint::lines_view(lines);
    if n == 0 {
        assert(views.subrange(first, first) =~= Seq::empty());
        seq![first]
    } else {
        let place = (n - 1) as nat;
        let starts = repositories_are_shown(
            lines,
            first,
            repositories,
            replies,
            members,
            all,
            done,
            place,
        );
        let start = starts[place as int];
        let before = crate::deploy_key::audit_lines(names, keys, members, all, place);
        let block = crate::deploy_key::repository_lines(
            names.len(),
            place,
            names[place as int],
            keys[place as int],
            members,
            all,
        );
        let upto = crate::deploy_key::audit_lines(names, keys, members, all, n);
        let whole = crate::deploy_key::audit_lines(names, keys, members, all, done);
        later_lines_come_behind(names, keys, members, all, n, done);
        assert(upto == before + block);
        assert(views.len() == lines.len());
        assert(before.len() == start - first);
        let end = start + block.len() as int;
        assert(whole.len() == lines.len() - first);
        assert forall|j: int| 0 <= j < upto.len() implies views[first + j] == upto[j] by {
            assert(whole[j] == whole.take(upto.len() as int)[j]);
            assert(views.skip(first)[j] == views[first + j]);
        }
        assert(views.subrange(first, end) =~= upto);
        assert forall|j: int| 0 <= j < block.len() implies views.subrange(start, end)[j]
            == block[j] by {
            assert(upto[before.len() + j] == block[j]);
            assert(views[first + (before.len() + j)] == upto[before.len() + j]);
        }
        assert(views.subrange(start, end) =~= block);
        assert(names.len() == repositories.len());
        assert(names[place as int] == repositories[place as int].name@);
        assert(replies[place as int] is Ok);
        assert(keys[place as int] == replies[place as int]->Ok_0@);
        repository_is_shown(
            lines,
            start,
            end,
            repositories.len(),
            place,
            repositories[place as int].name@,
            replies[place as int]->Ok_0@,
            members,
            all,
        );
        let more = starts.push(end);
        assert forall|i: int| 0 <= i < n implies shows_repository(
            lines,
            #[trigger] more[i],
            more[i + 1],
            repositories.len() as int,
            i,
            repositories[i].name@,
            replies[i]->Ok_0@,
            members,
            all,
        ) by {
            if i < place {
                assert(more[i] == starts[i] && more[i + 1] == starts[i + 1]);
            }
        }
        more
    }
}

proof fn later_lines_come_behind(
    names: Seq<Seq<char>>,
    keys: Seq<Seq<DeployKey>>,
    members: Set<Seq<char>>,
    all: bool,
    n: nat,
    done: nat,
)
    requires
        n <= done,
    ensures
        ({
            let upto = crate::deploy_key::audit_lines(names, keys, members, all, n);
            let whole = crate::deploy_key::audit_lines(names, keys, members, all, done);
            upto.len() <= whole.len() && whole.take(upto.len() as int) == upto
        }),
    decreases done,
{
    let upto = crate::deploy_key::audit_lines(names, keys, members, all, n);
    let whole = crate::deploy_key::audit_lines(names, keys, members, all, done);
    if n == done {
        assert(whole.take(upto.len() as int) =~= upto);
    } else {
        later_lines_come_behind(names, keys, members, all, n, (done - 1) as nat);
        let shorter = crate::deploy_key::audit_lines(names, keys, members, all, (done - 1) as nat);
        assert(whole.take(upto.len() as int) =~= shorter.take(upto.len() as int));
    }
}

/// Whether an audit came as far as the replies lead: every reply before brings keys, and then
/// the repositories or the replies are at an end, or the next reply is an error that the
/// audit stops with.
pub open spec fn came_as_far(
    repositories: Seq<Repository>,
    replies: Seq<Result<Vec<DeployKey>, String>>,
    done: int,
    stop: Option<Line>,
) -> bool {
    &&& 0 <= done <= repositories.len()
    &&& done <= replies.len()
    &&& forall|i: int| 0 <= i < done ==> (#[trigger] replies[i]) is Ok
    &&& match stop {
        Some(line) => {
            &&& done < repositories.len()
            &&& done < replies.len()
            &&& replies[done] matches Err(error) && crate::laws::paint::reads(
                line,
                keys_error_pieces(repositories[done].name@, error@),
            )
        },
        None => done == repositories.len() || done == replies.len(),
    }
}

proof fn led_is_as_far(
    repositories: Seq<Repository>,
    replies: Seq<Result<Vec<DeployKey>, String>>,
    done: nat,
    stop: Option<Line>,
)
    requires
        crate::deploy_key::led_through(
            crate::organization::names(repositories),
            replies,
            done,
            stop,
        ),
    ensures
        came_as_far(repositories, replies, done as int, stop),
{
    crate::laws::organization::names_are_in_order(repositories);
    if let Some(line) = stop {
        crate::laws::paint::a_line_is_its_pieces(line, line@);
        assert(crate::organization::names(repositories)[done as int]
            == repositories[done as int].name@);
    }
}

/// An audit goes through the repositories as far as the replies lead, and shows each of them:
/// the keys that are wanted, and at times the progress.
pub proof fn an_audit_shows_every_repository(
    all: bool,
    members: StringHashMap<Member>,
    repositories: Vec<Repository>,
    replies: Vec<Result<Vec<DeployKey>, String>>,
    r: (Vec<Line>, usize, Option<Line>),
)
    requires
        call_ensures(
            crate::deploy_key::audit_repositories,
            (all, members, repositories, replies),
            r,
        ),
        repositories@.len() <= 9007199254740992,
    ensures
        came_as_far(repositories@, replies@, r.1 as int, r.2),
        exists|starts: Seq<int>| #[trigger]
            shows_repositories(
                r.0@,
                0,
                starts,
                repositories@,
                replies@,
                members@.dom(),
                all,
                r.1 as int,
            ),
{
    led_is_as_far(repositories@, replies@, r.1 as nat, r.2);
    let views = crate::paint::lines_view(r.0@);
    assert(views.skip(0) =~= views);
    assert(views.len() == r.0@.len());
    let starts = repositories_are_shown(
        r.0@,
        0,
        repositories@,
        replies@,
        members@.dom(),
        all,
        r.1 as nat,
        r.1 as nat,
    );
    assert(views.subrange(0, starts[r.1 as int]).len() == views.len());
    assert(shows_repositories(
        r.0@,
        0,
        starts,
        repositories@,
        replies@,
        members@.dom(),
        all,
        r.1 as int,
    ));
}

/// Whatever is shown of the repositories shows every key of theirs that is wanted, and so
/// every key that no member added.
pub proof fn every_wanted_key_has_its_line(
    lines: Seq<Line>,
    first: int,
    starts: Seq<int>,
    repositories: Seq<Repository>,
    replies: Seq<Result<Vec<DeployKey>, String>>,
    members: Set<Seq<char>>,
    all: bool,
    done: int,
    i: int,
    k: int,
)
    requires
        shows_repositories(
            lines,
            first,
            starts,
            repositories,
            replies,
            members,
            all,
            done,
        ),
        0 <= i < done,
        0 <= k < replies[i]->Ok_0@.len(),
        all || !members.contains(replies[i]->Ok_0@[k].added_by@),
    ensures
        exists|l: int|
            0 <= l < lines.len() && crate::laws::paint::reads(
                #[trigger] lines[l],
                key_pieces(
                    repositories[i].name@,
                    replies[i]->Ok_0@[k],
                    members.contains(replies[i]->Ok_0@[k].added_by@),
                ),
            ),
{
    let keys = replies[i]->Ok_0@;
    let shown = wanted(keys, members, all);
    a_wanted_key_is_one_of_the_keys(keys, members, all);
    assert(shown.contains(keys[k]));
    let m = choose|m: int| 0 <= m < shown.len() && shown[m] == keys[k];
    let start = starts[i];
    assert(crate::laws::paint::reads(
        lines[start + m],
        key_pieces(repositories[i].name@, shown[m], members.contains(shown[m].added_by@)),
    ));
}

/// For every repository that is done, whichever its place and whether all keys are wanted or
/// not, every key of it that no member added is shown.
pub proof fn every_key_of_a_non_member_is_shown(
    all: bool,
    members: StringHashMap<Member>,
    repositories: Vec<Repository>,
    replies: Vec<Result<Vec<DeployKey>, String>>,
    r: (Vec<Line>, usize, Option<Line>),
    i: int,
    k: int,
)
    requires
        call_ensures(
            crate::deploy_key::audit_repositories,
            (all, members, repositories, replies),
            r,
        ),
        repositories@.len() <= 9007199254740992,
        0 <= i < r.1,
        0 <= k < replies@[i]->Ok_0@.len(),
        !members@.contains_key(replies@[i]->Ok_0@[k].added_by@),
    ensures
        exists|l: int|
            0 <= l < r.0@.len() && crate::laws::paint::reads(
                #[trigger] r.0@[l],
                key_pieces(repositories@[i].name@, replies@[i]->Ok_0@[k], false),
            ),
{
    an_audit_shows_every_repository(all, members, repositories, replies, r);
    let starts = choose|starts: Seq<int>| #[trigger]
        shows_repositories(
            r.0@,
            0,
            starts,
            repositories@,
            replies@,
            members@.dom(),
            all,
            r.1 as int,
        );
    every_wanted_key_has_its_line(
        r.0@,
        0,
        starts,
        repositories@,
        replies@,
        members@.dom(),
        all,
        r.1 as int,
        i,
        k,
    );
}

/// The lines of audits hold the line of every key that no member added, in every repository
/// that is done.
pub proof fn audit_lines_hold_every_key_of_a_non_member(
    names: Seq<Seq<char>>,
    keys: Seq<Seq<DeployKey>>,
    members: Set<Seq<char>>,
    all: bool,
    done: nat,
    i: int,
    k: int,
)
    requires
        0 <= i < done,
        0 <= k < keys[i].len(),
        !members.contains(keys[i][k].added_by@),
    ensures
        crate::deploy_key::audit_lines(names, keys, members, all, done).contains(
            key_pieces(names[i], keys[i][k], false),
        ),
    decreases done,
{
    let line = key_pieces(names[i], keys[i][k], false);
    let place = (done - 1) as nat;
    let before = crate::deploy_key::audit_lines(names, keys, members, all, place);
    let whole = crate::deploy_key::audit_lines(names, keys, members, all, done);
    if i < place {
        audit_lines_hold_every_key_of_a_non_member(names, keys, members, all, place, i, k);
        let l = choose|l: int| 0 <= l < before.len() && before[l] == line;
        assert(whole[l] == line);
    } else {
        let reported = crate::deploy_key::key_lines(names[i], keys[i], members, all);
        crate::deploy_key::a_key_of_a_non_member_is_always_reported(
            names[i],
            keys[i],
            members,
            all,
            k,
        );
        let l = choose|l: int|
            0 <= l < reported.len() && reported[l] == crate::deploy_key::key_line(
                names[i],
                keys[i][k],
                false,
            );
        assert(whole[before.len() + l] == line);
    }
}

/// Whether lines say how an audit begins: its title, that members are fetched, how many they
/// are, and that the repositories are fetched.
pub open spec fn says_beginning(lines: Seq<Line>, count: nat) -> bool {
    &&& lines.len() >= 4
    &&& crate::laws::paint::reads(lines[0], seq![(Style::BoldWhite, "GitHub Deploy Key Audit"@)])
    &&& crate::laws::paint::reads(
        lines[1],
        seq![(Style::Yellow, "Fetching all organization members"@)],
    )
    &&& crate::laws::paint::reads(
        lines[2],
        seq![
            (Style::Green, "Success! I found: "@),
            (Style::Plain, " "@),
            (Style::Plain, crate::text::decimal(count)),
        ],
    )
    &&& crate::laws::paint::reads(
        lines[3],
        seq![(Style::Yellow, "I'm going to fetch all repositories from the org"@)],
    )
}

/// A whole audit says how it begins and what it finds, and then shows each repository as far
/// as the replies lead. Who is a member is whose login came. It ends early where the members
/// or the repositories cannot be fetched, and says so.
pub proof fn a_whole_audit_shows_every_repository(
    bootstrap: &Bootstrap,
    all: bool,
    members: Result<Vec<Member>, String>,
    repositories: Result<Vec<Repository>, String>,
    replies: Vec<Result<Vec<DeployKey>, String>>,
    r: (Vec<Line>, AuditEnd),
)
    requires
        call_ensures(
            crate::deploy_key::run_audit,
            (bootstrap, all, members, repositories, replies),
            r,
        ),
        repositories matches Ok(repositories) ==> repositories@.len() <= 9007199254740992,
    ensures
        match (members, repositories) {
            (Err(error), _) => {
                &&& r.0@.len() == 2
                &&& crate::laws::paint::reads(
                    r.0@[0],
                    seq![(Style::BoldWhite, "GitHub Deploy Key Audit"@)],
                )
                &&& crate::laws::paint::reads(
                    r.0@[1],
                    seq![(Style::Yellow, "Fetching all organization members"@)],
                )
                &&& r.1 matches AuditEnd::NoMembers(line) && crate::laws::paint::reads(
                    line,
                    seq![
                        (Style::Red, "I couldn't fetch the organization members"@),
                        (Style::Plain, ": "@),
                        (Style::Plain, error@),
                    ],
                )
            },
            (Ok(members), Err(error)) => {
                &&& r.0@.len() == 4
                &&& says_beginning(r.0@, logins(members@).len())
                &&& r.1 matches AuditEnd::NoRepositories(message)
                    && crate::laws::organization::says_not_fetched(message@, error@)
            },
            (Ok(members), Ok(repositories)) => {
                &&& r.1 matches AuditEnd::Audited(done, stop)
                &&& came_as_far(repositories@, replies@, done as int, stop)
                &&& says_beginning(r.0@, logins(members@).len())
                &&& exists|first: int, starts: Seq<int>|
                    {
                        &&& 6 <= first <= r.0@.len()
                        &&& crate::laws::organization::says_found(
                            r.0@.subrange(4, first - 1),
                            repositories@,
                        )
                        &&& crate::laws::paint::reads(
                            r.0@[first - 1],
                            seq![
                                (
                                    Style::Yellow,
                                    "Finally the big one, I'm going to check each repository one by one to find deploy keys and their access. This is going to take a while..."@,
                                ),
                            ],
                        )
                        &&& #[trigger] shows_repositories(
                            r.0@,
                            first,
                            starts,
                            repositories@,
                            replies@,
                            logins(members@),
                            all,
                            done as int,
                        )
                    }
            },
        },
{
    let views = crate::paint::lines_view(r.0@);
    crate::laws::paint::lines_are_viewed_one_by_one(r.0@);
    assert(views.len() == r.0@.len());
    assert(views.len() >= 2);
    assert(crate::laws::paint::reads(r.0@[0], views[0]));
    assert(crate::laws::paint::reads(r.0@[1], views[1]));
    match (members, repositories) {
        (Err(error), _) => {
            let line = r.1->NoMembers_0;
            crate::laws::paint::a_line_is_its_pieces(line, line@);
        },
        (Ok(members), Err(error)) => {
            logins_are_indexed(members@);
            assert(crate::laws::paint::reads(r.0@[2], views[2]));
            assert(crate::laws::paint::reads(r.0@[3], views[3]));
            crate::laws::organization::not_fetched_is_said(r.1->NoRepositories_0@, error@);
        },
        (Ok(members), Ok(repositories)) => {
            let done = r.1->Audited_0 as nat;
            let stop = r.1->Audited_1;
            logins_are_indexed(members@);
            led_is_as_far(repositories@, replies@, done, stop);
            let found = crate::organization::found_lines(repositories@);
            let before = crate::deploy_key::lines_before_keys(members@, repositories@);
            let rest = crate::deploy_key::audit_lines(
                crate::organization::names(repositories@),
                crate::deploy_key::keys_in(replies@),
                crate::listing::indexed(members@).dom(),
                all,
                done,
            );
            let first = before.len() as int;
            assert(first == 4 + found.len() + 1);
            assert(views == before + rest);
            assert(views[0] == before[0] && views[1] == before[1]);
            assert(views[2] == before[2] && views[3] == before[3]);
            assert(crate::laws::paint::reads(r.0@[2], views[2]));
            assert(crate::laws::paint::reads(r.0@[3], views[3]));
            assert(views[first - 1] == before[first - 1]);
            assert(crate::laws::paint::reads(r.0@[first - 1], views[first - 1]));
            let middle = r.0@.subrange(4, first - 1);
            assert(crate::paint::lines_view(middle) =~= found) by {
                assert forall|j: int| 0 <= j < found.len() implies crate::paint::lines_view(
                    middle,
                )[j] == found[j] by {
                    assert(views[4 + j] == before[4 + j]);
                    assert(middle[j] == r.0@[4 + j]);
                    assert(views[4 + j] == r.0@[4 + j]@);
                }
            }
            crate::laws::organization::found_lines_say_it(middle, repositories@);
            assert(views.skip(first) =~= rest);
            let starts = repositories_are_shown(
                r.0@,
                first,
                repositories@,
                replies@,
                logins(members@),
                all,
                done,
                done,
            );
            assert(views.subrange(first, starts[done as int]).len() == rest.len());
            assert(shows_repositories(
                r.0@,
                first,
                starts,
                repositories@,
                replies@,
                logins(members@),
                all,
                done as int,
            ));
        },
    }
}

/// The logins of the members.
pub open spec fn logins(members: Seq<Member>) -> Set<Seq<char>> {
    members.map_values(|member: Member| member.login@).to_set()
}

proof fn logins_are_indexed(members: Seq<Member>)
    ensures
        crate::listing::indexed(members).dom() == logins(members),
{
    logins_of_members(members);
    let all = members.map_values(|member: Member| member.login@);
    assert forall|login: Seq<char>| crate::listing::indexed(members).dom().contains(
        login,
    ) <==> logins(members).contains(login) by {
        if crate::listing::indexed(members).contains_key(login) {
            let i = choose|i: int|
                0 <= i < members.len() && (#[trigger] members[i]).login@ == login;
            assert(all[i] == login);
        }
        if logins(members).contains(login) {
            let i = choose|i: int| 0 <= i < all.len() && all[i] == login;
            assert(members[i].login@ == login);
        }
    }
    assert(crate::listing::indexed(members).dom() =~= logins(members));
}

} // verus!
