//! Branches and commits of a repository, and the way to a snapshot of one of them.

use crate::calendar::{
    civil_date, date_of_day, day_number, is_date, law_date_of_day_number, law_day_numbers_ascend,
    law_every_day_has_a_date,
};
use crate::paths::{path_below, path_bytes, path_components};
use crate::revision::{texts, CommitView, GitCommit, GitHistory, GitRevision, HistoryView};
use crate::text::{
    decimal_text, digit_char, ends_with, first_chars, hex_text, is_before,
    law_common_start_keeps_order, law_continuations_keep_order, law_first_difference_decides,
    law_padded_numeral_tells_its_number, law_text_order_total, law_text_order_transitive,
    number_of, padded_decimal, padded_decimal_text, same_text, text_before,
};
use std::path::PathBuf;
use vstd::prelude::*;
use vstd::utf8::encode_utf8;

verus! {

/// The number of seconds that a clock shows which is `offset_minutes` ahead of UTC, held within
/// the range of 64 bits.
pub open spec fn local_seconds(seconds: int, offset_minutes: int) -> int {
    let shifted = seconds + offset_minutes * 60;
    if shifted > i64::MAX {
        i64::MAX as int
    } else if shifted < i64::MIN {
        i64::MIN as int
    } else {
        shifted
    }
}

/// The date as `YYYY-MM-DD`.
pub open spec fn date_text(date: (int, int, int)) -> Seq<char> {
    padded_decimal_text(date.0, 4) + seq!['-'] + padded_decimal_text(date.1, 2) + seq!['-']
        + padded_decimal_text(date.2, 2)
}

/// The date of a moment, in seconds since 1970-01-01 00:00 UTC, on a calendar that is
/// `offset_minutes` ahead of UTC.
pub open spec fn git_date(seconds: int, offset_minutes: int) -> Seq<char> {
    date_text(date_of_day(local_seconds(seconds, offset_minutes) / 86_400))
}

/// Writes the date of a commit, as its author's calendar showed it.
pub fn format_git_date(seconds: i64, offset_minutes: i32) -> (date: String)
    ensures
        date@ == git_date(seconds as int, offset_minutes as int),
{
    let offset: i64 = offset_minutes as i64 * 60;
    let local: i64 = match seconds.checked_add(offset) {
        Some(sum) => sum,
        None => if offset > 0 {
            i64::MAX
        } else {
            i64::MIN
        },
    };
    let days: i64 = match local.checked_div_euclid(86_400) {
        Some(quotient) => quotient,
        None => 0,
    };
    let (year, month, day) = civil_date(days);
    proof {
        law_date_of_day_number(year as int, month as int, day as int);
    }
    let mut date = padded_decimal(year, 4);
    date.push('-');
    date.append(padded_decimal(month, 2).as_str());
    date.push('-');
    date.append(padded_decimal(day, 2).as_str());
    proof {
        assert(date@ =~= date_text((year as int, month as int, day as int)));
    }
    date
}

proof fn lemma_two_digits(n: int)
    requires
        0 <= n < 100,
    ensures
        padded_decimal_text(n, 2) == seq![digit_char(n / 10), digit_char(n % 10)],
{
    reveal_with_fuel(decimal_text, 3);
    assert(padded_decimal_text(n, 2) =~= seq![digit_char(n / 10), digit_char(n % 10)]);
}

proof fn lemma_four_digits(n: int)
    requires
        0 <= n < 10_000,
    ensures
        padded_decimal_text(n, 4) == padded_decimal_text(n / 100, 2) + padded_decimal_text(
            n % 100,
            2,
        ),
        padded_decimal_text(n, 4).len() == 4,
{
    reveal_with_fuel(decimal_text, 5);
    lemma_two_digits(n / 100);
    lemma_two_digits(n % 100);
    assert(n / 10 / 10 == n / 100 && n / 100 / 10 == n / 1000);
    assert(n % 100 / 10 == n / 10 % 10 && n % 100 % 10 == n % 10);
    assert(padded_decimal_text(n, 4) =~= seq![
        digit_char(n / 1000),
        digit_char(n / 100 % 10),
        digit_char(n / 10 % 10),
        digit_char(n % 10),
    ]);
}

proof fn lemma_two_digits_ascend(m: int, n: int)
    requires
        0 <= m < n < 100,
    ensures
        text_before(padded_decimal_text(m, 2), padded_decimal_text(n, 2)),
{
    lemma_two_digits(m);
    lemma_two_digits(n);
    let place: int = if m / 10 < n / 10 {
        0
    } else {
        1
    };
    law_first_difference_decides(padded_decimal_text(m, 2), padded_decimal_text(n, 2), place);
}

proof fn lemma_four_digits_ascend(m: int, n: int)
    requires
        0 <= m < n < 10_000,
    ensures
        text_before(padded_decimal_text(m, 4), padded_decimal_text(n, 4)),
{
    lemma_four_digits(m);
    lemma_four_digits(n);
    lemma_two_digits(m / 100);
    lemma_two_digits(n / 100);
    if m / 100 < n / 100 {
        lemma_two_digits_ascend(m / 100, n / 100);
        law_continuations_keep_order(
            padded_decimal_text(m / 100, 2),
            padded_decimal_text(n / 100, 2),
            padded_decimal_text(m % 100, 2),
            padded_decimal_text(n % 100, 2),
        );
    } else {
        lemma_two_digits_ascend(m % 100, n % 100);
        law_common_start_keeps_order(
            padded_decimal_text(m / 100, 2),
            padded_decimal_text(m % 100, 2),
            padded_decimal_text(n % 100, 2),
        );
    }
}

/// Dates of the years 0 to 9999 are ordered as their texts are.
pub proof fn law_dates_are_ordered_as_texts(a: (int, int, int), b: (int, int, int))
    requires
        is_date(a.0, a.1, a.2),
        is_date(b.0, b.1, b.2),
        0 <= a.0 <= 9999,
        0 <= b.0 <= 9999,
        day_number(a.0, a.1, a.2) < day_number(b.0, b.1, b.2),
    ensures
        text_before(date_text(a), date_text(b)),
{
    if b.0 < a.0 || (b.0 == a.0 && (b.1 < a.1 || (b.1 == a.1 && b.2 < a.2))) {
        law_day_numbers_ascend(b, a);
    }
    lemma_four_digits(a.0);
    lemma_four_digits(b.0);
    lemma_two_digits(a.1);
    lemma_two_digits(b.1);
    let (ya, ma, da) = (
        padded_decimal_text(a.0, 4),
        padded_decimal_text(a.1, 2),
        padded_decimal_text(a.2, 2),
    );
    let (yb, mb, db) = (
        padded_decimal_text(b.0, 4),
        padded_decimal_text(b.1, 2),
        padded_decimal_text(b.2, 2),
    );
    let dash = seq!['-'];
    assert(date_text(a) =~= ya + (dash + ma + dash + da));
    assert(date_text(b) =~= yb + (dash + mb + dash + db));
    if a.0 < b.0 {
        lemma_four_digits_ascend(a.0, b.0);
        law_continuations_keep_order(ya, yb, dash + ma + dash + da, dash + mb + dash + db);
    } else if a.1 < b.1 {
        lemma_two_digits_ascend(a.1, b.1);
        law_continuations_keep_order(ma, mb, dash + da, dash + db);
        law_common_start_keeps_order(ya + dash, ma + (dash + da), mb + (dash + db));
        assert(date_text(a) =~= (ya + dash) + (ma + (dash + da)));
        assert(date_text(b) =~= (ya + dash) + (mb + (dash + db)));
    } else {
        lemma_two_digits_ascend(a.2, b.2);
        law_common_start_keeps_order(ya + dash + ma + dash, da, db);
    }
}

/// A commit as the repository gives it.
pub struct WalkedCommit {
    pub hash: String,
    /// The commit's time, in seconds since 1970-01-01 00:00 UTC.
    pub seconds: i64,
    /// How far ahead of UTC the author's clock was.
    pub offset_minutes: i32,
    /// The first line of the message, if it is text.
    pub summary: Option<String>,
}

impl WalkedCommit {
    /// The commit as the timeline shows it.
    pub open spec fn entry(self) -> CommitView {
        CommitView {
            hash: self.hash@,
            short_hash: if self.hash@.len() <= 7 {
                self.hash@
            } else {
                self.hash@.take(7)
            },
            date: git_date(self.seconds as int, self.offset_minutes as int),
            subject: match self.summary {
                Some(summary) => summary@,
                None => "(no message)"@,
            },
        }
    }
}

/// The walked commits as the timeline shows them, in the order of the walk.
pub open spec fn walk_entries(walked: Seq<WalkedCommit>) -> Seq<CommitView> {
    walked.map_values(|c: WalkedCommit| c.entry())
}

/// Whether the timeline offers the branch: it leaves out the `HEAD` of a remote.
pub open spec fn is_offered(name: Seq<char>) -> bool {
    !"/HEAD"@.is_suffix_of(name)
}

/// Whether each text of the list comes before the next.
pub open spec fn is_ascending(list: Seq<Seq<char>>) -> bool {
    forall|i: int, j: int| 0 <= i < j < list.len() ==> text_before(#[trigger] list[i], #[trigger] list[j])
}

/// Whether `list` holds each offered branch of `names` once, in ascending order.
pub open spec fn is_branch_list(names: Seq<Seq<char>>, list: Seq<Seq<char>>) -> bool {
    &&& is_ascending(list)
    &&& forall|name: Seq<char>| #[trigger]
        list.contains(name) <==> (names.contains(name) && is_offered(name))
}

/// The place of the branch that is checked out, or 0 if the list does not have it.
pub open spec fn head_place(list: Seq<Seq<char>>, head: Option<Seq<char>>) -> int {
    match head {
        Some(head) => if list.contains(head) {
            list.index_of(head)
        } else {
            0
        },
        None => 0,
    }
}

/// The text of an optional string.
pub open spec fn text_view(s: Option<String>) -> Option<Seq<char>> {
    match s {
        Some(s) => Some(s@),
        None => None,
    }
}

/// `list` with `name` put at its place in the order, unless it is there already.
fn insert_branch(list: &mut Vec<String>, name: String)
    requires
        is_ascending(texts(old(list)@)),
    ensures
        is_ascending(texts(final(list)@)),
        forall|other: Seq<char>| #[trigger]
            texts(final(list)@).contains(other) <==> (texts(old(list)@).contains(other) || other
                == name@),
{
    let ghost before = texts(list@);
    let mut place: usize = 0;
    while place < list.len() && is_before(list[place].as_str(), name.as_str())
        invariant
            before == texts(list@),
            place <= list@.len(),
            forall|i: int| 0 <= i < place ==> text_before(#[trigger] before[i], name@),
        decreases list@.len() - place,
    {
        assert(before[place as int] == list@[place as int]@);
        place = place + 1;
    }
    if place < list.len() && same_text(list[place].as_str(), name.as_str()) {
        proof {
            assert(before[place as int] == name@);
        }
        return ;
    }
    let ghost named = name@;
    list.insert(place, name);
    proof {
        let after = texts(list@);
        assert(after =~= before.insert(place as int, named));
        assert forall|i: int, j: int| 0 <= i < j < after.len() implies text_before(
            #[trigger] after[i],
            #[trigger] after[j],
        ) by {
            if place < before.len() {
                law_text_order_total(before[place as int], named);
            }
            if i == place {
                if j > place + 1 {
                    assert(after[j] == before[j - 1]);
                    law_text_order_transitive(named, before[place as int], before[j - 1]);
                }
            } else if j == place {
                assert(after[i] == before[i]);
            }
        }
        assert forall|other: Seq<char>| #[trigger] after.contains(other) <==> (before.contains(
            other,
        ) || other == named) by {
            if before.contains(other) {
                let k = before.index_of(other);
                if k < place {
                    assert(after[k] == other);
                } else {
                    assert(after[k + 1] == other);
                }
            }
            if other == named {
                assert(after[place as int] == other);
            }
            if after.contains(other) && other != named {
                let k = after.index_of(other);
                if k < place {
                    assert(before[k] == other);
                } else {
                    assert(before[k - 1] == other);
                }
            }
        }
    }
}

/// The branches that the timeline offers, each once, in ascending order.
pub fn offered_branches(names: Vec<String>) -> (list: Vec<String>)
    ensures
        is_branch_list(texts(names@), texts(list@)),
{
    let ghost all = texts(names@);
    let mut list: Vec<String> = Vec::new();
    let mut i: usize = 0;
    while i < names.len()
        invariant
            all == texts(names@),
            i <= names@.len(),
            is_branch_list(all.take(i as int), texts(list@)),
        decreases names@.len() - i,
    {
        let ghost before = texts(list@);
        let ghost seen = all.take(i as int);
        assert(all[i as int] == names@[i as int]@);
        assert(all.take(i + 1) =~= seen.push(all[i as int]));
        if !ends_with(names[i].as_str(), "/HEAD") {
            insert_branch(&mut list, names[i].clone());
        }
        proof {
            let now = all.take(i + 1);
            assert forall|name: Seq<char>| #[trigger] texts(list@).contains(name) <==> (
            now.contains(name) && is_offered(name)) by {
                assert(before.contains(name) <==> (seen.contains(name) && is_offered(name)));
                if seen.contains(name) {
                    let k = seen.index_of(name);
                    assert(now[k] == name);
                }
                assert(now[i as int] == all[i as int]);
                if now.contains(name) && name != all[i as int] {
                    let k = now.index_of(name);
                    assert(seen[k] == name);
                }
            }
        }
        i = i + 1;
    }
    proof {
        assert(all.take(all.len() as int) =~= all);
    }
    list
}

proof fn lemma_ascending_lists_equal(a: Seq<Seq<char>>, b: Seq<Seq<char>>)
    requires
        is_ascending(a),
        is_ascending(b),
        forall|name: Seq<char>| #[trigger] a.contains(name) <==> b.contains(name),
    ensures
        a == b,
    decreases a.len(),
{
    if a.len() == 0 {
        if b.len() > 0 {
            assert(b.contains(b[0]));
            assert(a.contains(b[0]));
        }
        assert(a =~= b);
    } else {
        assert(a.contains(a[0]));
        assert(b.contains(a[0]));
        assert(b.contains(b[0]));
        assert(a.contains(b[0]));
        law_text_order_total(a[0], b[0]);
        assert(a[0] == b[0]);
        let a1 = a.skip(1);
        let b1 = b.skip(1);
        assert forall|name: Seq<char>| #[trigger] a1.contains(name) <==> b1.contains(name) by {
            law_text_order_total(name, name);
            if a1.contains(name) {
                let k = a1.index_of(name);
                assert(a[k + 1] == name);
                assert(a.contains(name));
                assert(b.contains(name));
                let m = b.index_of(name);
                assert(m != 0);
                assert(b1[m - 1] == name);
            }
            if b1.contains(name) {
                let k = b1.index_of(name);
                assert(b[k + 1] == name);
                assert(b.contains(name));
                assert(a.contains(name));
                let m = a.index_of(name);
                assert(m != 0);
                assert(a1[m - 1] == name);
            }
        }
        lemma_ascending_lists_equal(a1, b1);
        assert(a =~= seq![a[0]] + a1);
        assert(b =~= seq![b[0]] + b1);
    }
}

/// The branches of a repository are offered in one way only, in whatever order and however often
/// the repository names them.
pub proof fn law_branch_list_unique(
    names: Seq<Seq<char>>,
    other_names: Seq<Seq<char>>,
    list: Seq<Seq<char>>,
    other_list: Seq<Seq<char>>,
)
    requires
        forall|name: Seq<char>| #[trigger] names.contains(name) <==> other_names.contains(name),
        is_branch_list(names, list),
        is_branch_list(other_names, other_list),
    ensures
        list == other_list,
{
    lemma_ascending_lists_equal(list, other_list);
}

/// The history with the commits that a walk from its branch met, at the work tree.
pub open spec fn with_commits(history: HistoryView, walked: Seq<WalkedCommit>) -> HistoryView {
    HistoryView {
        commits: walk_entries(walked).reverse(),
        position: walked.len() as int,
        ..history
    }
}

/// A history that has its commits is at the work tree, whatever the walk met, and is otherwise as
/// it was.
pub proof fn law_loaded_history_shows_the_worktree(
    history: HistoryView,
    walked: Seq<WalkedCommit>,
)
    requires
        history.wf(),
    ensures
        ({
            let loaded = with_commits(history, walked);
            &&& loaded.wf()
            &&& loaded.shows_worktree()
            &&& loaded.commits.len() == walked.len()
            &&& loaded.root == history.root
            &&& loaded.relative_path == history.relative_path
            &&& loaded.branches == history.branches
            &&& loaded.selected_branch == history.selected_branch
        }),
{
}

/// The history on branch number `branch`, whose walked commits these are, at the newest commit.
pub open spec fn on_branch(
    history: HistoryView,
    branch: int,
    walked: Seq<WalkedCommit>,
) -> HistoryView {
    HistoryView {
        selected_branch: branch,
        commits: walk_entries(walked).reverse(),
        position: if walked.len() == 0 {
            0
        } else {
            walked.len() - 1
        },
        ..history
    }
}

/// The timeline has the commits in the order opposite to the walk, which meets a commit before
/// those that it builds on: the oldest comes first, and the newest right before the work tree.
pub proof fn law_oldest_commit_comes_first(walked: Seq<WalkedCommit>, i: int)
    requires
        0 <= i < walked.len(),
    ensures
        walk_entries(walked).reverse().len() == walked.len(),
        walk_entries(walked).reverse()[i] == walked[walked.len() - 1 - i].entry(),
{
}

/// The timeline that is loaded has each walked commit once, in the order opposite to the walk: at
/// place `i` from the start is the one at place `i` from the end of the walk, whatever the branch.
/// It is at the work tree once loaded, and at the newest commit, the first of the walk, once the
/// branch was switched.
pub proof fn law_loaded_commits_are_the_walk_backwards(
    history: HistoryView,
    branch: int,
    walked: Seq<WalkedCommit>,
    i: int,
)
    requires
        0 <= i < walked.len(),
    ensures
        ({
            let loaded = with_commits(history, walked);
            let switched = on_branch(history, branch, walked);
            let last = walked.len() - 1;
            &&& loaded.commits.len() == walked.len()
            &&& loaded.commits[i] == walked[last - i].entry()
            &&& loaded.position == walked.len()
            &&& loaded.selected_branch == history.selected_branch
            &&& switched.commits.len() == walked.len()
            &&& switched.commits[i] == walked[last - i].entry()
            &&& switched.selected_branch == branch
            &&& switched.position == last
            &&& switched.commits[switched.position] == walked[0].entry()
        }),
{
}

/// Loading commits or switching the branch changes neither the repository, nor the file, nor the
/// branches; and a walk that met nothing leaves the timeline with the work tree alone.
pub proof fn law_loading_keeps_the_rest(
    history: HistoryView,
    branch: int,
    walked: Seq<WalkedCommit>,
)
    ensures
        ({
            let loaded = with_commits(history, walked);
            let switched = on_branch(history, branch, walked);
            &&& loaded.root == history.root && switched.root == history.root
            &&& loaded.relative_path == history.relative_path && switched.relative_path
                == history.relative_path
            &&& loaded.branches == history.branches && switched.branches == history.branches
            &&& loaded.selected_branch == history.selected_branch && switched.selected_branch
                == branch
            &&& walked.len() == 0 ==> loaded.commits.len() == 0 && loaded.position == 0
                && switched.commits.len() == 0 && switched.position == 0
        }),
{
}

/// The timeline shows the hash of a commit, its first seven characters or all if there are fewer,
/// the date of its moment on its author's calendar, and its summary, if it has one.
pub proof fn law_timeline_shows_the_commit(walked: WalkedCommit)
    ensures
        ({
            let shown = walked.entry();
            &&& shown.hash == walked.hash@
            &&& shown.short_hash.is_prefix_of(walked.hash@)
            &&& shown.short_hash.len() == 7 || (shown.short_hash.len() < 7
                && shown.short_hash.len() == walked.hash@.len())
            &&& shown.date == git_date(walked.seconds as int, walked.offset_minutes as int)
            &&& walked.summary matches Some(summary) ==> shown.subject == summary@
            &&& walked.summary is None ==> shown.subject == "(no message)"@
        }),
{
    assert(walked.hash@.subrange(0, walked.hash@.len() as int) =~= walked.hash@);
}

/// The branches that are not offered are those whose name ends in `/HEAD`.
pub proof fn law_remote_heads_are_not_offered(name: Seq<char>)
    ensures
        is_offered(name) <==> {
            let n = name.len() as int;
            !(n >= 5 && name[n - 5] == '/' && name[n - 4] == 'H' && name[n - 3] == 'E' && name[n - 2]
                == 'A' && name[n - 1] == 'D')
        },
{
    reveal_strlit("/HEAD");
    let n = name.len() as int;
    if n >= 5 {
        let end = name.subrange(n - 5, n);
        assert(end[0] == name[n - 5] && end[1] == name[n - 4] && end[2] == name[n - 3] && end[3]
            == name[n - 2] && end[4] == name[n - 1]);
        if end[0] == '/' && end[1] == 'H' && end[2] == 'E' && end[3] == 'A' && end[4] == 'D' {
            assert(end =~= "/HEAD"@);
        }
    }
}

/// The branches that are offered come in ascending order, none twice: all that the repository
/// names but the heads of remotes, and no others.
pub proof fn law_offered_branches(names: Seq<Seq<char>>, list: Seq<Seq<char>>, i: int, j: int)
    requires
        is_branch_list(names, list),
    ensures
        0 <= i < j < list.len() ==> text_before(list[i], list[j]) && list[i] != list[j],
        0 <= i < list.len() ==> names.contains(list[i]) && is_offered(list[i]),
        0 <= j < names.len() && is_offered(names[j]) ==> list.contains(names[j]),
{
    if 0 <= i < j < list.len() {
        law_text_order_total(list[i], list[j]);
    }
    if 0 <= i < list.len() {
        assert(list.contains(list[i]));
    }
    if 0 <= j < names.len() {
        assert(names.contains(names[j]));
    }
}

/// The branch that is checked out is the selected one if it is offered; else the first is.
pub proof fn law_checked_out_branch_is_selected(list: Seq<Seq<char>>, head: Option<Seq<char>>)
    requires
        list.len() > 0,
    ensures
        0 <= head_place(list, head) < list.len(),
        match head {
            Some(name) => if list.contains(name) {
                list[head_place(list, head)] == name
            } else {
                head_place(list, head) == 0
            },
            None => head_place(list, head) == 0,
        },
{
    if let Some(name) = head {
        if list.contains(name) {
            let place = list.index_of(name);
            assert(0 <= place < list.len());
        }
    }
}

/// The date of a moment is that of the day on which it falls where the clock is that many minutes
/// ahead of UTC: the day that starts no later, and whose next day starts later. Moments beyond the
/// range of 64 bits count as the last within it.
pub proof fn law_moment_falls_on_its_date(seconds: int, offset_minutes: int)
    ensures
        ({
            let shown = seconds + 60 * offset_minutes;
            let local = local_seconds(seconds, offset_minutes);
            let date = date_of_day(local / 86_400);
            let day = day_number(date.0, date.1, date.2);
            &&& i64::MIN <= shown <= i64::MAX ==> local == shown
            &&& shown > i64::MAX ==> local == i64::MAX
            &&& shown < i64::MIN ==> local == i64::MIN
            &&& is_date(date.0, date.1, date.2)
            &&& 86_400 * day <= local < 86_400 * (day + 1)
            &&& git_date(seconds, offset_minutes) == date_text(date)
        }),
{
    law_every_day_has_a_date(local_seconds(seconds, offset_minutes) / 86_400);
}

/// The text of a date of the years 0 to 9999 is four digits that tell the year, two that tell the
/// month and two that tell the day, with dashes between them.
pub proof fn law_date_text_tells_the_date(year: int, month: int, day: int)
    requires
        0 <= year <= 9999,
        is_date(year, month, day),
    ensures
        ({
            let text = date_text((year, month, day));
            &&& text.len() == 10
            &&& number_of(text.subrange(0, 4)) == year
            &&& text[4] == '-'
            &&& number_of(text.subrange(5, 7)) == month
            &&& text[7] == '-'
            &&& number_of(text.subrange(8, 10)) == day
        }),
{
    let text = date_text((year, month, day));
    let (y, m, d) = (
        padded_decimal_text(year, 4),
        padded_decimal_text(month, 2),
        padded_decimal_text(day, 2),
    );
    lemma_four_digits(year);
    lemma_two_digits(month);
    lemma_two_digits(day);
    law_padded_numeral_tells_its_number(year, 4);
    law_padded_numeral_tells_its_number(month, 2);
    law_padded_numeral_tells_its_number(day, 2);
    assert(y.skip(0) =~= y && m.skip(0) =~= m && d.skip(0) =~= d);
    assert(text.subrange(0, 4) =~= y);
    assert(text.subrange(5, 7) =~= m);
    assert(text.subrange(8, 10) =~= d);
}

/// The text of any date tells its year, its month and its day in that order, with dashes between
/// them.
pub proof fn law_date_text_has_three_parts(year: int, month: int, day: int)
    requires
        is_date(year, month, day),
    ensures
        ({
            let text = date_text((year, month, day));
            let y = padded_decimal_text(year, 4);
            let n = y.len() as int;
            &&& text.len() == n + 6
            &&& text.subrange(0, n) == y
            &&& text[n] == '-'
            &&& number_of(text.subrange(n + 1, n + 3)) == month
            &&& text[n + 3] == '-'
            &&& number_of(text.subrange(n + 4, n + 6)) == day
        }),
{
    let text = date_text((year, month, day));
    let (y, m, d) = (
        padded_decimal_text(year, 4),
        padded_decimal_text(month, 2),
        padded_decimal_text(day, 2),
    );
    let n = y.len() as int;
    lemma_two_digits(month);
    lemma_two_digits(day);
    law_padded_numeral_tells_its_number(month, 2);
    law_padded_numeral_tells_its_number(day, 2);
    assert(m.skip(0) =~= m && d.skip(0) =~= d);
    assert(text.subrange(0, n) =~= y);
    assert(text.subrange(n + 1, n + 3) =~= m);
    assert(text.subrange(n + 4, n + 6) =~= d);
}

/// Reads what a repository says of a model file into a history.
pub struct GitRepository;

impl GitRepository {
    /// The history of the model file `source`, on the branch that is checked out, before its
    /// commits are read. `root` is the work tree of its repository; `names` are the branches,
    /// local and remote; `head` is the one that is checked out, if there is one. A file outside
    /// the work tree has no history, nor has one in a repository without branches.
    pub fn discover(
        source: &PathBuf,
        root: PathBuf,
        names: Vec<String>,
        head: Option<String>,
    ) -> (history: Option<GitHistory>)
        ensures
            history is None <==> {
                ||| !path_components(path_bytes(root)).is_prefix_of(
                    path_components(path_bytes(*source)),
                )
                ||| forall|name: Seq<char>| texts(names@).contains(name) ==> !is_offered(name)
            },
            match history {
                Some(history) => {
                    &&& history@.wf()
                    &&& history@.root == path_bytes(root)
                    &&& path_components(history@.root) + path_components(history@.relative_path)
                        == path_components(path_bytes(*source))
                    &&& is_branch_list(texts(names@), history@.branches)
                    &&& history@.selected_branch == head_place(history@.branches, text_view(head))
                    &&& history@.commits == Seq::<CommitView>::empty()
                    &&& history@.position == 0
                },
                None => true,
            },
    {
        let ghost all = texts(names@);
        let relative_path = match path_below(source, &root) {
            Some(relative_path) => relative_path,
            None => {
                return None;
            },
        };
        proof {
            let start = path_components(path_bytes(root));
            let rest = path_components(path_bytes(relative_path));
            assert((start + rest).subrange(0, start.len() as int) =~= start);
        }
        let branches = offered_branches(names);
        let ghost list = texts(branches@);
        if branches.len() == 0 {
            proof {
                assert forall|name: Seq<char>| all.contains(name) implies !is_offered(name) by {
                    assert(!list.contains(name));
                }
            }
            return None;
        }
        proof {
            assert(list.contains(list[0]));
        }
        let selected_branch: usize = match &head {
            Some(head) => place_of(&branches, head.as_str()),
            None => 0,
        };
        let history = GitHistory {
            root,
            relative_path,
            branches,
            selected_branch,
            commits: Vec::new(),
            position: 0,
        };
        proof {
            assert(history@.commits =~= Seq::<CommitView>::empty());
        }
        Some(history)
    }

    /// Puts the commits of the selected branch on the timeline and selects the work tree.
    /// `walked` are the commits that a walk from the branch met, the newest first, or none if the
    /// branch could not be read.
    pub fn load_commits(history: &mut GitHistory, walked: Vec<WalkedCommit>)
        ensures
            final(history)@ == with_commits(old(history)@, walked@),
            final(history).commits@.len() == walked@.len(),
            forall|i: int|
                0 <= i < walked@.len() ==> (#[trigger] final(history).commits@[i])@
                    == walked@[walked@.len() - 1 - i].entry(),
            final(history).position == walked@.len(),
    {
        let ghost entries = walk_entries(walked@);
        let mut commits: Vec<GitCommit> = Vec::new();
        let mut left: usize = walked.len();
        while left > 0
            invariant
                entries == walk_entries(walked@),
                left <= walked@.len(),
                commits@.len() == walked@.len() - left,
                forall|i: int|
                    0 <= i < commits@.len() ==> #[trigger] commits@[i]@ == entries.reverse()[i],
            decreases left,
        {
            left = left - 1;
            let commit = timeline_entry(&walked[left]);
            proof {
                assert(entries.reverse()[commits@.len() as int] == entries[left as int]);
            }
            commits.push(commit);
        }
        history.commits = commits;
        history.position = history.commits.len();
        proof {
            assert(history@.commits =~= entries.reverse());
        }
    }

    /// Turns the timeline to another branch, and selects its newest commit. `walked` is as for
    /// `load_commits`.
    pub fn switch_branch(history: &mut GitHistory, branch: usize, walked: Vec<WalkedCommit>)
        ensures
            final(history)@ == on_branch(old(history)@, branch as int, walked@),
            final(history).commits@.len() == walked@.len(),
            forall|i: int|
                0 <= i < walked@.len() ==> (#[trigger] final(history).commits@[i])@
                    == walked@[walked@.len() - 1 - i].entry(),
            final(history).selected_branch == branch,
            final(history).position + 1 == walked@.len() || walked@.len() == 0,
    {
        let ghost before = history@;
        let ghost walk = walked@;
        history.selected_branch = branch;
        Self::load_commits(history, walked);
        proof {
            assert(history@.commits == walk_entries(walk).reverse());
            assert(history@.commits.len() == history.commits@.len());
        }
        if history.commits.len() > 0 {
            history.position = history.commits.len() - 1;
        }
        proof {
            assert(history@ =~= on_branch(before, branch as int, walk));
        }
    }
}

/// The commit as the timeline shows it.
fn timeline_entry(walked: &WalkedCommit) -> (commit: GitCommit)
    ensures
        commit@ == walked.entry(),
{
    GitCommit {
        hash: walked.hash.clone(),
        short_hash: first_chars(walked.hash.as_str(), 7),
        date: format_git_date(walked.seconds, walked.offset_minutes),
        subject: match &walked.summary {
            Some(summary) => summary.clone(),
            None => "(no message)".to_owned(),
        },
    }
}

/// The place of `name` in the list, or 0 if it is not there.
fn place_of(list: &Vec<String>, name: &str) -> (place: usize)
    requires
        list@.len() > 0,
        is_ascending(texts(list@)),
    ensures
        place == head_place(texts(list@), Some(name@)),
        place < list@.len(),
{
    let ghost all = texts(list@);
    for i in 0..list.len()
        invariant
            all == texts(list@),
            is_ascending(all),
            list@.len() > 0,
            forall|k: int| 0 <= k < i ==> #[trigger] all[k] != name@,
    {
        if same_text(list[i].as_str(), name) {
            proof {
                assert(all[i as int] == name@);
                assert(all.contains(name@));
                law_text_order_total(name@, name@);
                let k = all.index_of(name@);
                assert(all[k] == name@);
            }
            return i;
        }
        assert(all[i as int] == list@[i as int]@);
    }
    0
}

/// The value of a hexadecimal digit, in either case; none if `c` is not one.
pub open spec fn hex_value(c: char) -> Option<int> {
    if '0' <= c <= '9' {
        Some(c as int - 48)
    } else if 'a' <= c <= 'f' {
        Some(c as int - 87)
    } else if 'A' <= c <= 'F' {
        Some(c as int - 55)
    } else {
        None
    }
}

/// Whether `hash` names a commit: one to forty hexadecimal digits.
pub open spec fn is_commit_id(hash: Seq<char>) -> bool {
    1 <= hash.len() <= 40 && forall|i: int| 0 <= i < hash.len() ==> hex_value(#[trigger] hash[i]) is Some
}

/// The value of digit number `i`, or 0 behind the last.
pub open spec fn id_digit(hash: Seq<char>, i: int) -> int {
    if i < hash.len() {
        hex_value(hash[i])->0
    } else {
        0
    }
}

/// The twenty bytes of a commit id, with zeros in place of the digits that it lacks.
pub open spec fn id_bytes(hash: Seq<char>) -> Seq<u8> {
    Seq::new(20, |i: int| (16 * id_digit(hash, 2 * i) + id_digit(hash, 2 * i + 1)) as u8)
}

/// What libgit2 says of a text that is not a commit id.
pub open spec fn id_error(hash: Seq<char>) -> Seq<char> {
    if hash.len() == 0 {
        "unable to parse OID - too short; class=Invalid (3)"@
    } else if encode_utf8(hash).len() > 40 {
        "unable to parse OID - too long; class=Invalid (3)"@
    } else {
        "unable to parse OID - contains invalid characters; class=Invalid (3)"@
    }
}

/// Calls `git2::Oid::from_str`, which reads one to forty hexadecimal digits into the twenty bytes
/// of an id, from the first byte on, and refuses every other text. The error is handed on as the
/// text that its `Display` gives: the complaint of libgit2 and the class of the error.
#[verifier::external_body]
fn parse_commit_id(hash: &str) -> (id: Result<Vec<u8>, String>)
    ensures
        match id {
            Ok(bytes) => is_commit_id(hash@) && bytes@ == id_bytes(hash@),
            Err(error) => !is_commit_id(hash@) && error@ == id_error(hash@),
        },
{
    git2::Oid::from_str(hash).map(|id| id.as_bytes().to_vec()).map_err(|error| error.to_string())
}

/// What of a checkout has been tried.
pub enum CheckoutStage {
    /// Cloning the repository.
    Clone,
    /// Finding the commit in the clone.
    FindCommit,
    /// Writing the tree of the commit to disk.
    WriteTree,
    /// Setting the head of the clone to the commit.
    DetachHead,
}

/// What a checkout needs next.
pub enum CheckoutStep {
    /// Find the commit that has this id in the clone.
    FindCommit(Vec<u8>),
    /// Write the tree of the commit to disk.
    WriteTree,
    /// Set the head of the clone to the commit.
    DetachHead,
    /// Nothing: the checkout has succeeded, or has failed with this message.
    Finished(Result<(), String>),
}

/// Whether `step` leads on from a stage of the checkout of commit `hash` that succeeded.
pub open spec fn leads_on(stage: CheckoutStage, hash: Seq<char>, step: CheckoutStep) -> bool {
    match stage {
        CheckoutStage::Clone => if is_commit_id(hash) {
            step matches CheckoutStep::FindCommit(id) && id@ == id_bytes(hash)
        } else {
            fails_with(step, "Git commit IDが不正です: "@ + id_error(hash))
        },
        CheckoutStage::FindCommit => step is WriteTree,
        CheckoutStage::WriteTree => step is DetachHead,
        CheckoutStage::DetachHead => step == CheckoutStep::Finished(Ok(())),
    }
}

/// Whether the checkout ends there, with that message.
pub open spec fn fails_with(step: CheckoutStep, message: Seq<char>) -> bool {
    step matches CheckoutStep::Finished(Err(text)) && text@ == message
}

/// What the message of a failed stage starts with.
pub open spec fn checkout_failure(stage: CheckoutStage) -> Seq<char> {
    match stage {
        CheckoutStage::Clone => "Gitスナップショットを準備できません: "@,
        CheckoutStage::FindCommit => "Git commitを読み込めません: "@,
        CheckoutStage::WriteTree => "Git treeを展開できません: "@,
        CheckoutStage::DetachHead => "Git HEADを設定できません: "@,
    }
}

impl GitRepository {
    /// The step of the checkout of `revision` that follows `stage`, given what came of it: an
    /// error is its text.
    pub fn checkout_revision(
        revision: &GitRevision,
        stage: CheckoutStage,
        outcome: Result<(), String>,
    ) -> (step: CheckoutStep)
        ensures
            match outcome {
                Ok(_) => leads_on(stage, revision@.commit.hash, step),
                Err(error) => fails_with(step, checkout_failure(stage) + error@),
            },
    {
        match outcome {
            Err(error) => {
                let start = match stage {
                    CheckoutStage::Clone => "Gitスナップショットを準備できません: ",
                    CheckoutStage::FindCommit => "Git commitを読み込めません: ",
                    CheckoutStage::WriteTree => "Git treeを展開できません: ",
                    CheckoutStage::DetachHead => "Git HEADを設定できません: ",
                };
                CheckoutStep::Finished(Err(start.to_owned().concat(error.as_str())))
            },
            Ok(_) => match stage {
                CheckoutStage::Clone => match parse_commit_id(revision.commit.hash.as_str()) {
                    Ok(id) => CheckoutStep::FindCommit(id),
                    Err(error) => CheckoutStep::Finished(
                        Err("Git commit IDが不正です: ".to_owned().concat(error.as_str())),
                    ),
                },
                CheckoutStage::FindCommit => CheckoutStep::WriteTree,
                CheckoutStage::WriteTree => CheckoutStep::DetachHead,
                CheckoutStage::DetachHead => CheckoutStep::Finished(Ok(())),
            },
        }
    }
}

/// The checkout of a commit goes from the clone to the commit whose hash was given, to its tree and
/// to the head, and then has succeeded; a text that is not a hash ends it with a message.
pub proof fn law_way_of_a_checkout(stage: CheckoutStage, hash: Seq<char>, step: CheckoutStep)
    requires
        leads_on(stage, hash, step),
    ensures
        stage is Clone && is_commit_id(hash) ==> (step matches CheckoutStep::FindCommit(id) && id@
            == id_bytes(hash)),
        stage is Clone && !is_commit_id(hash) ==> (step matches CheckoutStep::Finished(
            Err(message),
        ) && message@ == "Git commit IDが不正です: "@ + id_error(hash)),
        stage is FindCommit ==> step is WriteTree,
        stage is WriteTree ==> step is DetachHead,
        stage is DetachHead ==> (step matches CheckoutStep::Finished(Ok(_))),
{
}

/// A stage of a checkout that failed ends it with a message that tells the stage and the error.
pub proof fn law_failed_checkout_tells_where(
    stage: CheckoutStage,
    error: Seq<char>,
    step: CheckoutStep,
)
    requires
        fails_with(step, checkout_failure(stage) + error),
    ensures
        step matches CheckoutStep::Finished(Err(message)) && message@ == (match stage {
            CheckoutStage::Clone => "Gitスナップショットを準備できません: "@,
            CheckoutStage::FindCommit => "Git commitを読み込めません: "@,
            CheckoutStage::WriteTree => "Git treeを展開できません: "@,
            CheckoutStage::DetachHead => "Git HEADを設定できません: "@,
        }) + error,
{
}

/// The name of the branch that is checked out is known by its text.
pub proof fn law_optional_text(name: Option<String>)
    ensures
        name is None <==> text_view(name) is None,
        name matches Some(name) ==> text_view(Some(name)) == Some(name@),
{
}

/// The bytes of the id of a commit, written in lower-case hexadecimal digits, are its hash.
pub proof fn law_id_is_the_hash(hash: Seq<char>, i: int)
    requires
        is_commit_id(hash),
        hash.len() == 40,
        forall|k: int| 0 <= k < 40 ==> !('A' <= #[trigger] hash[k] <= 'F'),
        0 <= i < 20,
    ensures
        id_bytes(hash).len() == 20,
        hex_text(id_bytes(hash)[i] as nat, 2) == hash.subrange(2 * i, 2 * i + 2),
{
    let high = hash[2 * i];
    let low = hash[2 * i + 1];
    assert(hex_value(high) is Some && hex_value(low) is Some);
    let byte = id_bytes(hash)[i];
    assert(byte == 16 * id_digit(hash, 2 * i) + id_digit(hash, 2 * i + 1));
    reveal_with_fuel(hex_text, 3);
    assert(hex_text(byte as nat, 2) =~= seq![high, low]);
    assert(hash.subrange(2 * i, 2 * i + 2) =~= seq![high, low]);
}

} // verus!
