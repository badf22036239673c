//! What is read out of the tables that a device prints.

use vstd::prelude::*;
use crate::device::probe::{dumpsys_uid, first_some, leading_number, package_fault, props, ProbeView};
use crate::device::resolve::{
    app_names, app_of, app_row_uid, app_rows, base_name, cmd_package_uid, cmdline_package, header_index,
    lists_uid, name_index, package_like, package_list_uid, package_pids, package_rows, pid_user, ps_row,
    ps_rows, ps_table, state_anchor, uid_pids, uid_rows, user_uid, word_index, AppTargetKind, Prefilter,
    ResolutionView, ResolveStage, RowView, StepView, TargetView,
};
use crate::commands::with_probe;
use crate::device::{device_line, device_list, devices_in, prettified, DeviceState, DeviceView};
use crate::device::watch::{appearance, probe_needed, probed, worth_announcing, EventView};
use crate::executor::OutputView;
use crate::parser::logcat::app_uid_token;
use crate::parser::record::RecordView;
use crate::state::StateView;
use crate::text::class::{is_space, Class};
use crate::text::laws::{
    all_solid, gaps_for, is_gap, is_solid, lacks, law_contains_is_infix, law_lines_read_back, law_numbers_read_back,
    law_split_at_a_word_reads_back, law_split_once_reads_back, law_split_reads_back, law_trim_reads_back,
    law_words_read_back, lemma_contains_infix, lemma_dec_digits, lemma_spread_is_a_line, lemma_tokens_word, spread,
};
use crate::text::number::{dec, dec_int, parse_i32};
use crate::text::order::{ascending, law_number_set};
use crate::text::search::{all_in, any_in, contains, lemma_trim_plain, occurs_at, starts_with, trim};
use crate::text::split::{join, lemma_join_front, lines, tokens};

verus! {

pub open spec fn is_hex(c: char) -> bool {
    ||| '0' <= c <= '9'
    ||| 'a' <= c <= 'f'
    ||| 'A' <= c <= 'F'
}

/// The letter of a process state.
pub open spec fn is_state(c: char) -> bool {
    ||| c == 'S'
    ||| c == 'D'
    ||| c == 'I'
    ||| c == 'R'
    ||| c == 'T'
    ||| c == 'W'
    ||| c == 'Z'
    ||| c == 'X'
    ||| c == 'V'
    ||| c == 't'
}

/// A state letter right behind a hexadecimal number.
pub open spec fn is_anchor(words: Seq<Seq<char>>, i: int) -> bool {
    &&& words[i].len() == 1
    &&& is_state(words[i][0])
    &&& forall|k: int| 0 <= k < words[i - 1].len() ==> is_hex(#[trigger] words[i - 1][k])
}

/// The word stands at this place, and at none before it.
pub open spec fn first_at(words: Seq<Seq<char>>, name: Seq<char>, at: int) -> bool {
    &&& 0 <= at < words.len()
    &&& words[at] == name
    &&& forall|j: int| 0 <= j < at ==> (#[trigger] words[j]) != name
}

proof fn lemma_anchor(words: Seq<Seq<char>>, i: int)
    requires
        1 <= i < words.len(),
    ensures
        state_anchor(words, i) == is_anchor(words, i),
{
    let w = words[i - 1];
    if all_in(w, Class::HexDigit) {
        assert forall|k: int| 0 <= k < w.len() implies is_hex(#[trigger] w[k]) by {
            assert(Class::HexDigit.has(w[k]));
        }
    }
    if forall|k: int| 0 <= k < w.len() ==> is_hex(#[trigger] w[k]) {
        assert forall|k: int| 0 <= k < w.len() implies Class::HexDigit.has(#[trigger] w[k]) by {
            assert(is_hex(w[k]));
        }
    }
}

proof fn lemma_name_index(words: Seq<Seq<char>>, i: int, at: int)
    requires
        1 <= at <= i < words.len(),
        is_anchor(words, at),
        forall|j: int| at < j <= i ==> !is_anchor(words, j),
    ensures
        name_index(words, i) == Some(at + 1),
    decreases i,
{
    lemma_anchor(words, i);
    if i > at {
        lemma_name_index(words, i - 1, at);
    }
}

proof fn lemma_no_name_index(words: Seq<Seq<char>>, i: int)
    requires
        i < words.len(),
        forall|j: int| 1 <= j <= i ==> !is_anchor(words, j),
    ensures
        name_index(words, i) is None,
    decreases i,
{
    if i >= 1 {
        lemma_anchor(words, i);
        lemma_no_name_index(words, i - 1);
    }
}

proof fn lemma_word_index(words: Seq<Seq<char>>, name: Seq<char>, at: int)
    requires
        first_at(words, name, at),
    ensures
        word_index(words, name) == at,
    decreases words.len(),
{
    if at > 0 {
        assert(words[0] != name);
        let rest = words.skip(1);
        assert(rest[at - 1] == name);
        assert forall|j: int| 0 <= j < at - 1 implies (#[trigger] rest[j]) != name by {
            assert(rest[j] == words[j + 1]);
        }
        lemma_word_index(rest, name, at - 1);
    }
}

proof fn lemma_rows_front(line: Seq<char>, rest: Seq<Seq<char>>, u: int, p: int)
    ensures
        ps_rows(seq![line] + rest, u, p) == (match ps_row(line, u, p) {
            Some(row) => seq![row],
            None => seq![],
        }) + ps_rows(rest, u, p),
    decreases rest.len(),
{
    let all = seq![line] + rest;
    if rest.len() == 0 {
        assert(all.drop_last() =~= seq![]);
        assert(all.last() == line);
        assert(rest =~= seq![]);
        assert(ps_rows(all.drop_last(), u, p) =~= seq![]);
        assert(ps_rows(rest, u, p) =~= seq![]);
        assert(ps_rows(all, u, p) =~= (match ps_row(line, u, p) {
            Some(row) => seq![row],
            None => seq![],
        }) + ps_rows(rest, u, p));
    } else {
        lemma_rows_front(line, rest.drop_last(), u, p);
        assert(all.drop_last() =~= seq![line] + rest.drop_last());
        assert(all.last() == rest.last());
        assert(ps_rows(all, u, p) =~= (match ps_row(line, u, p) {
            Some(row) => seq![row],
            None => seq![],
        }) + ps_rows(rest, u, p));
    }
}

proof fn lemma_spread_contains(words: Seq<Seq<char>>, gaps: Seq<Seq<char>>, i: int)
    requires
        gaps.len() == words.len(),
        0 <= i < words.len(),
    ensures
        contains(spread(words, gaps), words[i]),
    decreases words.len(),
{
    let ws = words.skip(1);
    let gs = gaps.skip(1);
    let head = gaps[0] + words[0];
    if i == 0 {
        lemma_contains_infix(gaps[0], words[0], spread(ws, gs));
    } else {
        lemma_spread_contains(ws, gs, i - 1);
        assert(ws[i - 1] == words[i]);
        law_contains_is_infix(spread(ws, gs), words[i]);
        let (a, b) = choose|a: Seq<char>, b: Seq<char>| spread(ws, gs) == #[trigger] (a + words[i] + b);
        assert(spread(words, gaps) =~= (head + a) + words[i] + b);
        lemma_contains_infix(head + a, words[i], b);
    }
}

/// A table with this header and a line under it is the row of that line, and the table
/// of the rest.
proof fn lemma_table_line(
    cols: Seq<Seq<char>>,
    col_gaps: Seq<Seq<char>>,
    u: int,
    p: int,
    line: Seq<char>,
    rest: Seq<char>,
)
    requires
        all_solid(cols),
        gaps_for(cols, col_gaps),
        first_at(cols, "USER"@, u),
        first_at(cols, "PID"@, p),
        lacks(line, '\n'),
        line.len() == 0 || line.last() != '\r',
    ensures
        ({
            let header = spread(cols, col_gaps) + seq!['\n'];
            ps_table(header + line + seq!['\n'] + rest) == (match ps_row(line, u, p) {
                Some(row) => seq![row],
                None => seq![],
            }) + ps_table(header + rest)
        }),
{
    let h = spread(cols, col_gaps);
    let header = h + seq!['\n'];
    lemma_spread_is_a_line(cols, col_gaps);
    lemma_spread_contains(cols, col_gaps, p);
    law_words_read_back(cols, col_gaps, seq![]);
    assert(h + seq![] =~= h);
    lemma_word_index(cols, "USER"@, u);
    lemma_word_index(cols, "PID"@, p);
    let below = line + seq!['\n'] + rest;
    law_lines_read_back(h, below);
    law_lines_read_back(h, rest);
    law_lines_read_back(line, rest);
    let text = header + line + seq!['\n'] + rest;
    assert(text =~= h + seq!['\n'] + below);
    assert(header + rest =~= h + seq!['\n'] + rest);
    let all = lines(text);
    let less = lines(header + rest);
    assert(all == seq![h] + (seq![line] + lines(rest)));
    assert(less == seq![h] + lines(rest));
    assert(all[0] == h && less[0] == h);
    assert(header_index(all) == 0 && header_index(less) == 0);
    assert(all.skip(1) =~= seq![line] + lines(rest));
    assert(less.skip(1) =~= lines(rest));
    lemma_rows_front(line, lines(rest), u, p);
}

proof fn lemma_join_holds(words: Seq<Seq<char>>)
    requires
        words.len() > 0,
        words[0].len() > 0,
    ensures
        join(words, " "@).len() > 0,
{
    if words.len() > 1 {
        lemma_join_front(words, " "@);
    }
}

/// A row of `ps -A` is read back whatever the state of the process is. Its user and its
/// id stand where the header has them; behind the address and the state letter stands
/// the name, which may hold spaces and, apart from another such pair, anything.
pub proof fn law_ps_rows_read_back(
    cols: Seq<Seq<char>>,
    col_gaps: Seq<Seq<char>>,
    u: int,
    p: int,
    front: Seq<Seq<char>>,
    address: Seq<char>,
    state: char,
    name: Seq<Seq<char>>,
    gaps: Seq<Seq<char>>,
    tail: Seq<char>,
    pid: i32,
    rest: Seq<char>,
)
    requires
        all_solid(cols),
        gaps_for(cols, col_gaps),
        first_at(cols, "USER"@, u),
        first_at(cols, "PID"@, p),
        ({
            let words = front + seq![address, seq![state]] + name;
            &&& all_solid(words)
            &&& gaps_for(words, gaps)
            &&& forall|j: int| front.len() + 2 <= j < words.len() ==> !is_anchor(words, j)
        }),
        is_gap(tail),
        u < front.len(),
        p < front.len(),
        front[p] == dec_int(pid as int),
        forall|k: int| 0 <= k < address.len() ==> is_hex(#[trigger] address[k]),
        is_state(state),
        name.len() > 0,
    ensures
        ({
            let header = spread(cols, col_gaps) + seq!['\n'];
            let row = spread(front + seq![address, seq![state]] + name, gaps) + tail + seq!['\n'];
            ps_table(header + row + rest) == seq![RowView { pid, user: front[u], name: join(name, " "@) }] + ps_table(
                header + rest,
            )
        }),
{
    let words = front + seq![address, seq![state]] + name;
    let header = spread(cols, col_gaps) + seq!['\n'];
    let line = spread(words, gaps) + tail;
    lemma_spread_is_a_line(words, gaps);
    lemma_line_end(spread(words, gaps), tail);
    law_words_read_back(words, gaps, tail);
    law_numbers_read_back(pid);
    let at = front.len() as int + 1;
    assert(words[at] == seq![state] && words[at - 1] == address);
    assert(is_anchor(words, at));
    lemma_name_index(words, words.len() - 1, at);
    assert(words.skip(at + 1) =~= name);
    assert(words[at + 1] == name[0] && is_solid(words[at + 1]));
    lemma_join_holds(name);
    assert(words[u] == front[u] && words[p] == front[p]);
    lemma_table_line(cols, col_gaps, u, p, line, rest);
    assert(header + (line + seq!['\n']) + rest =~= header + line + seq!['\n'] + rest);
}

/// A line of a `ps -A` table without a state letter behind an address, or without a
/// number where the process id belongs, is no row.
pub proof fn law_other_ps_lines_are_no_rows(
    cols: Seq<Seq<char>>,
    col_gaps: Seq<Seq<char>>,
    u: int,
    p: int,
    words: Seq<Seq<char>>,
    gaps: Seq<Seq<char>>,
    rest: Seq<char>,
)
    requires
        all_solid(cols),
        gaps_for(cols, col_gaps),
        first_at(cols, "USER"@, u),
        first_at(cols, "PID"@, p),
        all_solid(words),
        gaps_for(words, gaps),
        words.len() <= u || words.len() <= p || parse_i32(words[p]) is None || forall|j: int|
            1 <= j < words.len() ==> !is_anchor(words, j),
    ensures
        ({
            let header = spread(cols, col_gaps) + seq!['\n'];
            ps_table(header + spread(words, gaps) + seq!['\n'] + rest) == ps_table(header + rest)
        }),
{
    let line = spread(words, gaps);
    lemma_spread_is_a_line(words, gaps);
    law_words_read_back(words, gaps, seq![]);
    assert(line + seq![] =~= line);
    if forall|j: int| 1 <= j < words.len() ==> !is_anchor(words, j) {
        lemma_no_name_index(words, words.len() - 1);
    }
    lemma_table_line(cols, col_gaps, u, p, line, rest);
    let header = spread(cols, col_gaps) + seq!['\n'];
    assert(Seq::<RowView>::empty() + ps_table(header + rest) =~= ps_table(header + rest));
}

proof fn lemma_line_end(s: Seq<char>, tail: Seq<char>)
    requires
        lacks(s, '\n'),
        lacks(s, '\r'),
        is_gap(tail),
    ensures
        lacks(s + tail, '\n'),
        (s + tail).len() == 0 || (s + tail).last() != '\r',
{
    let t = s + tail;
    assert forall|i: int| 0 <= i < t.len() implies (#[trigger] t[i]) != '\n' && t[i] != '\r' by {
        if i < s.len() {
            assert(t[i] == s[i]);
        } else {
            assert(t[i] == tail[i - s.len()]);
        }
    }
}

/// The processes of a package are those of its name, and of its name with a colon and
/// anything behind; they are listed once, in ascending order.
pub proof fn law_processes_of_a_package(rows: Seq<RowView>, package: Seq<char>)
    ensures
        ascending(package_pids(rows, package)),
        forall|pid: i32| #[trigger]
            package_pids(rows, package).contains(pid) <==> exists|i: int|
                0 <= i < rows.len() && (#[trigger] rows[i]).pid == pid && (rows[i].name == package || exists|
                    child: Seq<char>,
                | rows[i].name == #[trigger] (package + seq![':'] + child)),
{
    law_number_set(package_rows(rows, package));
    assert forall|pid: i32| #[trigger] package_rows(rows, package).contains(pid) <==> exists|i: int|
        0 <= i < rows.len() && (#[trigger] rows[i]).pid == pid && of_app(rows[i].name, package) by {
        lemma_package_rows(rows, package, pid);
    }
    assert forall|pid: i32| #[trigger] package_pids(rows, package).contains(pid) <==> exists|i: int|
        0 <= i < rows.len() && (#[trigger] rows[i]).pid == pid && of_app(rows[i].name, package) by {
        assert(package_pids(rows, package).contains(pid) <==> package_rows(rows, package).contains(pid));
    }
}

pub open spec fn of_app(name: Seq<char>, package: Seq<char>) -> bool {
    name == package || exists|child: Seq<char>| name == #[trigger] (package + seq![':'] + child)
}

proof fn lemma_of_app(row: RowView, package: Seq<char>)
    ensures
        crate::device::resolve::of_package(row, package) == of_app(row.name, package),
{
    reveal_strlit(":");
    assert(":"@ =~= seq![':']);
    let prefix = package + seq![':'];
    if starts_with(row.name, prefix) {
        let child = row.name.skip(prefix.len() as int);
        assert(row.name =~= package + seq![':'] + child);
    }
    if exists|child: Seq<char>| row.name == #[trigger] (package + seq![':'] + child) {
        let child = choose|child: Seq<char>| row.name == #[trigger] (package + seq![':'] + child);
        assert(row.name.take(prefix.len() as int) =~= prefix);
    }
}

proof fn lemma_package_rows(rows: Seq<RowView>, package: Seq<char>, pid: i32)
    ensures
        package_rows(rows, package).contains(pid) <==> exists|i: int|
            0 <= i < rows.len() && (#[trigger] rows[i]).pid == pid && of_app(rows[i].name, package),
    decreases rows.len(),
{
    if rows.len() > 0 {
        let init = rows.drop_last();
        let last = rows.last();
        lemma_package_rows(init, package, pid);
        lemma_of_app(last, package);
        let before = package_rows(init, package);
        let after = package_rows(rows, package);
        if after.contains(pid) {
            let k = choose|k: int| 0 <= k < after.len() && after[k] == pid;
            if k < before.len() {
                assert(before[k] == pid);
                assert(before.contains(pid));
                let i = choose|i: int|
                    0 <= i < init.len() && (#[trigger] init[i]).pid == pid && of_app(init[i].name, package);
                assert(rows[i] == init[i]);
            } else {
                assert(rows[rows.len() - 1].pid == pid);
            }
        }
        if exists|i: int| 0 <= i < rows.len() && (#[trigger] rows[i]).pid == pid && of_app(rows[i].name, package) {
            let i = choose|i: int|
                0 <= i < rows.len() && (#[trigger] rows[i]).pid == pid && of_app(rows[i].name, package);
            if i < init.len() {
                assert(init[i] == rows[i]);
                assert(before.contains(pid));
                let k = choose|k: int| 0 <= k < before.len() && before[k] == pid;
                assert(after[k] == pid);
            } else {
                assert(after.last() == pid);
            }
        }
    }
}

/// The processes of a uid are those whose user stands for it, listed once and in
/// ascending order.
pub proof fn law_processes_of_a_uid(rows: Seq<RowView>, uid: i32)
    ensures
        ascending(uid_pids(rows, uid)),
        forall|pid: i32| #[trigger]
            uid_pids(rows, uid).contains(pid) <==> exists|i: int|
                0 <= i < rows.len() && (#[trigger] rows[i]).pid == pid && user_uid(rows[i].user) == Some(uid),
{
    law_number_set(uid_rows(rows, uid));
    assert forall|pid: i32| #[trigger] uid_pids(rows, uid).contains(pid) <==> exists|i: int|
        0 <= i < rows.len() && (#[trigger] rows[i]).pid == pid && user_uid(rows[i].user) == Some(uid) by {
        lemma_uid_rows(rows, uid, pid);
        assert(uid_pids(rows, uid).contains(pid) <==> uid_rows(rows, uid).contains(pid));
    }
}

proof fn lemma_uid_rows(rows: Seq<RowView>, uid: i32, pid: i32)
    ensures
        uid_rows(rows, uid).contains(pid) <==> exists|i: int|
            0 <= i < rows.len() && (#[trigger] rows[i]).pid == pid && user_uid(rows[i].user) == Some(uid),
    decreases rows.len(),
{
    if rows.len() > 0 {
        let init = rows.drop_last();
        lemma_uid_rows(init, uid, pid);
        let before = uid_rows(init, uid);
        let after = uid_rows(rows, uid);
        if after.contains(pid) {
            let k = choose|k: int| 0 <= k < after.len() && after[k] == pid;
            if k < before.len() {
                assert(before[k] == pid);
                assert(before.contains(pid));
                let i = choose|i: int|
                    0 <= i < init.len() && (#[trigger] init[i]).pid == pid && user_uid(init[i].user) == Some(uid);
                assert(rows[i] == init[i]);
            } else {
                assert(rows[rows.len() - 1].pid == pid);
            }
        }
        if exists|i: int|
            0 <= i < rows.len() && (#[trigger] rows[i]).pid == pid && user_uid(rows[i].user) == Some(uid) {
            let i = choose|i: int|
                0 <= i < rows.len() && (#[trigger] rows[i]).pid == pid && user_uid(rows[i].user) == Some(uid);
            if i < init.len() {
                assert(init[i] == rows[i]);
                assert(before.contains(pid));
                let k = choose|k: int| 0 <= k < before.len() && before[k] == pid;
                assert(after[k] == pid);
            } else {
                assert(after.last() == pid);
            }
        }
    }
}

proof fn lemma_no_number(s: Seq<char>)
    requires
        s.len() > 0,
        !('0' <= s[0] <= '9'),
        s[0] != '-',
        s[0] != '+',
    ensures
        parse_i32(s) is None,
{
    assert(!Class::Digit.has(s[0]));
    assert(!all_in(s, Class::Digit));
}

/// The user of an app process, as `ps` and logcat write it.
pub open spec fn app_user(user: nat, app: nat) -> Seq<char> {
    seq!['u'] + dec(user) + seq!['_', 'a'] + dec(app)
}

proof fn lemma_app_user(user: nat, app: nat)
    requires
        user * 100_000 + 10_000 + app <= i32::MAX,
    ensures
        app_uid_token(app_user(user, app)) == Some((user * 100_000 + 10_000 + app) as i32),
        parse_i32(app_user(user, app)) is None,
{
    let s = app_user(user, app);
    let a = dec(user);
    let b = dec(app);
    lemma_dec_digits(user);
    lemma_dec_digits(app);
    assert(user <= i32::MAX && app <= i32::MAX);
    law_numbers_read_back(user as i32);
    law_numbers_read_back(app as i32);
    reveal_strlit("_a");
    assert("_a"@ =~= seq!['_', 'a']);
    assert(s.skip(1) =~= a + "_a"@ + b);
    assert forall|j: int| 0 <= j < a.len() implies !occurs_at(a + "_a"@ + b, "_a"@, j) by {
        let t = a + "_a"@ + b;
        if occurs_at(t, "_a"@, j) {
            assert(t.subrange(j, j + 2)[0] == t[j]);
            assert(t[j] == a[j]);
        }
    }
    law_split_at_a_word_reads_back(a, "_a"@, b);
    lemma_no_number(s);
    assert(user * 100_000 <= i32::MAX) by (nonlinear_arith)
        requires
            user * 100_000 + 10_000 + app <= i32::MAX,
    ;
}

/// A user stands for a uid: a number for itself, the known names for theirs, and the
/// `app`-th app of a user for a number of that user's range.
pub proof fn law_users_stand_for_uids(n: i32, user: nat, app: nat)
    ensures
        user_uid(dec_int(n as int)) == Some(n),
        user_uid("root"@) == Some(0i32),
        user_uid("system"@) == Some(1000i32),
        user_uid("radio"@) == Some(1001i32),
        user_uid("shell"@) == Some(2000i32),
        user * 100_000 + 10_000 + app <= i32::MAX ==> user_uid(app_user(user, app)) == Some(
            (user * 100_000 + 10_000 + app) as i32,
        ),
{
    law_numbers_read_back(n);
    reveal_strlit("root");
    reveal_strlit("system");
    reveal_strlit("radio");
    reveal_strlit("shell");
    lemma_no_number("root"@);
    lemma_no_number("system"@);
    lemma_no_number("radio"@);
    lemma_no_number("shell"@);
    assert("root"@.len() == 4 && "radio"@.len() == 5 && "radio"@[0] == 'r' && "shell"@[0] == 's');
    if user * 100_000 + 10_000 + app <= i32::MAX {
        lemma_app_user(user, app);
        assert(app_user(user, app)[0] == 'u');
        assert("system"@[0] == 's' && "root"@[0] == 'r');
    }
}

/// logcat writes the same names.
pub proof fn law_logcat_names_the_same_uids(user: nat, app: nat)
    ensures
        crate::parser::logcat::uid_token("root"@) == user_uid("root"@),
        crate::parser::logcat::uid_token("system"@) == user_uid("system"@),
        crate::parser::logcat::uid_token("radio"@) == user_uid("radio"@),
        crate::parser::logcat::uid_token("shell"@) == user_uid("shell"@),
        user * 100_000 + 10_000 + app <= i32::MAX ==> crate::parser::logcat::uid_token(app_user(user, app)) == user_uid(
            app_user(user, app),
        ),
{
    law_users_stand_for_uids(0, user, app);
    reveal_strlit("root");
    reveal_strlit("system");
    reveal_strlit("radio");
    reveal_strlit("shell");
    reveal_strlit("uid=");
    lemma_trim_plain("root"@, Class::Space);
    lemma_trim_plain("system"@, Class::Space);
    lemma_trim_plain("radio"@, Class::Space);
    lemma_trim_plain("shell"@, Class::Space);
    assert("root"@.take(4)[0] == 'r' && "system"@.take(4)[0] == 's' && "radio"@.take(4)[0] == 'r'
        && "shell"@.take(4)[0] == 's' && "uid="@[0] == 'u');
    lemma_no_number("root"@);
    lemma_no_number("system"@);
    lemma_no_number("radio"@);
    lemma_no_number("shell"@);
    assert("root"@.len() == 4 && "radio"@.len() == 5 && "radio"@[0] == 'r' && "shell"@[0] == 's');
    if user * 100_000 + 10_000 + app <= i32::MAX {
        let s = app_user(user, app);
        lemma_app_user(user, app);
        lemma_dec_digits(user);
        lemma_dec_digits(app);
        assert(s[0] == 'u');
        assert(s[1] == dec(user)[0]);
        assert(s.last() == dec(app).last());
        if s.len() >= 4 {
            assert(s.take(4)[1] == s[1]);
            assert("uid="@[1] == 'i');
        }
        lemma_trim_plain(s, Class::Space);
        assert("system"@[0] == 's' && "root"@[0] == 'r');
    }
}

/// Nothing, or a space and something that does not end in white space.
pub open spec fn is_line_tail(tail: Seq<char>) -> bool {
    &&& lacks(tail, '\n')
    &&& tail.len() > 0 ==> tail[0] == ' ' && !is_space(tail.last())
}

proof fn lemma_first_some_front(line: Seq<char>, rest: Seq<Seq<char>>, rule: spec_fn(Seq<char>) -> Option<i32>)
    ensures
        first_some(seq![line] + rest, rule) == match rule(line) {
            Some(n) => Some(n),
            None => first_some(rest, rule),
        },
{
    let all = seq![line] + rest;
    assert(all[0] == line);
    assert(all.skip(1) =~= rest);
}

proof fn lemma_leading_number(n: i32, tail: Seq<char>)
    requires
        tail.len() > 0 ==> tail[0] == ' ',
    ensures
        leading_number(dec_int(n as int) + tail) == Some(n),
{
    law_numbers_read_back(n);
    let d = dec_int(n as int);
    lemma_tokens_word(seq![], d, tail);
    assert(seq![] + d + tail =~= d + tail);
}

/// `dumpsys package` shows the uid in a line of its own, whatever stands before it in
/// other lines and behind it in the same.
pub proof fn law_dumpsys_shows_the_uid(gap: Seq<char>, n: i32, tail: Seq<char>, line: Seq<char>, rest: Seq<char>)
    requires
        is_gap(gap),
        is_line_tail(tail),
        lacks(line, '\n'),
        lacks(line, '\r'),
        !contains(line, "userId="@),
    ensures
        dumpsys_uid(gap + "userId="@ + dec_int(n as int) + tail + seq!['\n'] + rest) == Some(n),
        dumpsys_uid(line + seq!['\n'] + rest) == dumpsys_uid(rest),
        dumpsys_uid(Seq::<char>::empty()) is None,
{
    reveal_strlit("userId=");
    let d = dec_int(n as int);
    let core = "userId="@ + d + tail;
    let whole = gap + core;
    law_numbers_read_back(n);
    assert(core[0] == 'u');
    assert(core.last() == if tail.len() > 0 { tail.last() } else { d.last() });
    law_trim_reads_back(gap, core, seq![]);
    assert(gap + core + seq![] =~= whole);
    assert(core.take(7) =~= "userId="@);
    assert(core.skip(7) =~= d + tail);
    lemma_leading_number(n, tail);
    assert forall|i: int| 0 <= i < whole.len() implies (#[trigger] whole[i]) != '\n' by {
        if i < gap.len() {
            assert(whole[i] == gap[i]);
        } else if i >= gap.len() + 7 + d.len() {
            assert(whole[i] == tail[i - gap.len() - 7 - d.len()]);
        } else if i >= gap.len() + 7 {
            assert(whole[i] == d[i - gap.len() - 7]);
            assert(!is_space(d[i - gap.len() - 7]));
        } else {
            assert(whole[i] == "userId="@[i - gap.len()]);
        }
    }
    assert(whole.last() == core.last());
    law_lines_read_back(whole, rest);
    assert(gap + "userId="@ + d + tail + seq!['\n'] + rest =~= whole + seq!['\n'] + rest);
    let rule = crate::device::probe::dumpsys_rule();
    lemma_first_some_front(whole, lines(rest), rule);
    law_lines_read_back(line, rest);
    lemma_first_some_front(line, lines(rest), rule);
    let t = trim(line, Class::Space);
    lemma_trim_is_within(line);
    if starts_with(t, "userId="@) {
        assert(t =~= Seq::<char>::empty() + "userId="@ + t.skip(7));
        lemma_contains_infix(seq![], "userId="@, t.skip(7));
        lemma_contained(line, t, "userId="@);
    }
}

/// What is left of a text when it is trimmed is a part of it.
proof fn lemma_trim_is_within(s: Seq<char>)
    ensures
        contains(s, trim(s, Class::Space)),
{
    let k = Class::Space;
    crate::text::search::lemma_span(s, k, true);
    let n = crate::text::search::span(s, k, true);
    let t = s.skip(n);
    crate::text::search::lemma_tail_span(t, k, true);
    let m = crate::text::search::tail_span(t, k, true);
    assert(s =~= s.take(n) + trim(s, k) + t.skip(t.len() - m));
    lemma_contains_infix(s.take(n), trim(s, k), t.skip(t.len() - m));
}

proof fn lemma_contained(s: Seq<char>, part: Seq<char>, n: Seq<char>)
    requires
        contains(s, part),
        contains(part, n),
    ensures
        contains(s, n),
{
    law_contains_is_infix(s, part);
    law_contains_is_infix(part, n);
    let (a, b) = choose|a: Seq<char>, b: Seq<char>| s == #[trigger] (a + part + b);
    let (x, y) = choose|x: Seq<char>, y: Seq<char>| part == #[trigger] (x + n + y);
    assert(s =~= (a + x) + n + (y + b));
    lemma_contains_infix(a + x, n, y + b);
}

/// The table of all packages shows the uid of each under its own name and no other's.
pub proof fn law_the_package_table_shows_uids(name: Seq<char>, n: i32, tail: Seq<char>, rest: Seq<char>, package: Seq<char>)
    requires
        is_solid(name),
        is_line_tail(tail),
    ensures
        cmd_package_uid("package:"@ + name + " uid:"@ + dec_int(n as int) + tail + seq!['\n'] + rest, package)
            == if package == name {
            Some(n)
        } else {
            cmd_package_uid(rest, package)
        },
        cmd_package_uid(Seq::<char>::empty(), package) is None,
{
    reveal_strlit("package:");
    reveal_strlit(" uid:");
    let d = dec_int(n as int);
    let line = "package:"@ + name + " uid:"@ + d + tail;
    law_numbers_read_back(n);
    assert(line[0] == 'p');
    assert(line.last() == if tail.len() > 0 { tail.last() } else { d.last() });
    lemma_trim_plain(line, Class::Space);
    assert(line.take(8) =~= "package:"@);
    let after = name + " uid:"@ + (d + tail);
    assert(line.skip(8) =~= after);
    assert forall|j: int| 0 <= j < name.len() implies !occurs_at(after, " uid:"@, j) by {
        if occurs_at(after, " uid:"@, j) {
            assert(after.subrange(j, j + 5)[0] == after[j]);
            assert(after[j] == name[j]);
            assert(!is_space(name[j]));
        }
    }
    law_split_at_a_word_reads_back(name, " uid:"@, d + tail);
    lemma_trim_plain(name, Class::Space);
    lemma_leading_number(n, tail);
    assert forall|i: int| 0 <= i < line.len() implies (#[trigger] line[i]) != '\n' by {
        let m = 8 + name.len();
        if i < 8 {
            assert(line[i] == "package:"@[i]);
        } else if i < m {
            assert(line[i] == name[i - 8]);
            assert(!is_space(name[i - 8]));
        } else if i < m + 5 {
            assert(line[i] == " uid:"@[i - m]);
        } else if i < m + 5 + d.len() {
            assert(line[i] == d[i - m - 5]);
            assert(!is_space(d[i - m - 5]));
        } else {
            assert(line[i] == tail[i - m - 5 - d.len()]);
        }
    }
    law_lines_read_back(line, rest);
    lemma_first_some_front(line, lines(rest), crate::device::resolve::cmd_package_rule(package));
}

/// The list of packages shows the uid of each in its second column.
pub proof fn law_the_package_list_shows_uids(
    words: Seq<Seq<char>>,
    gaps: Seq<Seq<char>>,
    n: i32,
    rest: Seq<char>,
    package: Seq<char>,
)
    requires
        all_solid(words),
        gaps_for(words, gaps),
        words.len() >= 2,
        words[1] == dec_int(n as int),
    ensures
        package_list_uid(spread(words, gaps) + seq!['\n'] + rest, package) == if package == words[0] {
            Some(n)
        } else {
            package_list_uid(rest, package)
        },
        package_list_uid(Seq::<char>::empty(), package) is None,
{
    let line = spread(words, gaps);
    lemma_spread_is_a_line(words, gaps);
    law_words_read_back(words, gaps, seq![]);
    assert(line + seq![] =~= line);
    law_numbers_read_back(n);
    law_lines_read_back(line, rest);
    lemma_first_some_front(line, lines(rest), crate::device::resolve::package_list_rule(package));
}

/// A character of a package name.
pub open spec fn is_package_char(c: char) -> bool {
    ||| 'a' <= c <= 'z'
    ||| 'A' <= c <= 'Z'
    ||| '0' <= c <= '9'
    ||| c == '.'
    ||| c == '_'
}

proof fn lemma_package_chars(s: Seq<char>)
    ensures
        all_in(s, Class::PackageChar) <==> forall|i: int| 0 <= i < s.len() ==> is_package_char(#[trigger] s[i]),
{
    if all_in(s, Class::PackageChar) {
        assert forall|i: int| 0 <= i < s.len() implies is_package_char(#[trigger] s[i]) by {
            assert(Class::PackageChar.has(s[i]));
        }
    }
    if forall|i: int| 0 <= i < s.len() ==> is_package_char(#[trigger] s[i]) {
        assert forall|i: int| 0 <= i < s.len() implies Class::PackageChar.has(#[trigger] s[i]) by {
            assert(is_package_char(s[i]));
        }
    }
}

/// A name is taken for a package exactly where it is made of letters, digits, points and
/// underscores and no part between two points, or before or behind one, is empty.
pub proof fn law_package_names(name: Seq<char>)
    ensures
        package_fault(name) is None <==> {
            &&& name.len() > 0
            &&& forall|i: int| 0 <= i < name.len() ==> is_package_char(#[trigger] name[i])
            &&& name[0] != '.'
            &&& name.last() != '.'
            &&& forall|i: int| 0 <= i < name.len() - 1 ==> !(name[i] == '.' && #[trigger] name[i + 1] == '.')
        },
{
    lemma_package_chars(name);
    reveal_strlit("..");
    if contains(name, ".."@) {
        let i = choose|i: int| occurs_at(name, ".."@, i);
        assert(name.subrange(i, i + 2)[0] == name[i] && name.subrange(i, i + 2)[1] == name[i + 1]);
        assert(name[i] == '.' && name[i + 1] == '.');
    }
    if exists|i: int| 0 <= i < name.len() - 1 && name[i] == '.' && #[trigger] name[i + 1] == '.' {
        let i = choose|i: int| 0 <= i < name.len() - 1 && name[i] == '.' && #[trigger] name[i + 1] == '.';
        assert(name.subrange(i, i + 2) =~= ".."@);
        assert(occurs_at(name, ".."@, i));
    }
}

/// The command line of an app process names its package: the first argument, without the
/// child behind a colon. A path, a kernel thread and a name without a point are none.
pub proof fn law_command_lines_name_packages(name: Seq<char>, child: Seq<char>, rest: Seq<char>)
    requires
        lacks(name, '\0'),
        lacks(name, ':'),
        is_solid(name),
        lacks(child, '\0'),
        child.len() > 0 ==> child[0] == ':' && !is_space(child.last()),
    ensures
        ({
            let named = cmdline_package(name + child + seq!['\0'] + rest);
            let is_app = (exists|i: int| 0 <= i < name.len() && name[i] == '.') && forall|i: int|
                0 <= i < name.len() ==> is_package_char(#[trigger] name[i]);
            &&& is_app ==> named == Some(name)
            &&& !is_app ==> named is None
        }),
        cmdline_package(name + child) == cmdline_package(name + child + seq!['\0'] + rest),
{
    let first = name + child;
    assert(lacks(first, '\0')) by {
        assert forall|i: int| 0 <= i < first.len() implies (#[trigger] first[i]) != '\0' by {
            if i < name.len() {
                assert(first[i] == name[i]);
            } else {
                assert(first[i] == child[i - name.len()]);
            }
        }
    }
    law_split_reads_back(first, '\0', rest);
    assert(first[0] == name[0]);
    assert(first.last() == if child.len() > 0 { child.last() } else { name.last() });
    lemma_trim_plain(first, Class::Space);
    if child.len() > 0 {
        assert(first =~= name + seq![':'] + child.skip(1));
        law_split_reads_back(name, ':', child.skip(1));
    } else {
        assert(first =~= name);
        law_split_reads_back(name, ':', seq![]);
    }
    assert(base_name(first) == name);
    lemma_package_chars(name);
    if exists|i: int| 0 <= i < name.len() && name[i] == '.' {
        let i = choose|i: int| 0 <= i < name.len() && name[i] == '.';
        assert(Class::One('.').has(name[i]));
    }
    if any_in(name, Class::One('.')) {
        let i = choose|i: int| 0 <= i < name.len() && Class::One('.').has(#[trigger] name[i]);
        assert(name[i] == '.');
    }
    if name[0] == '[' {
        assert(!is_package_char(name[0]));
    }
}

/// What adb calls a state.
pub open spec fn names_state(word: Seq<char>, state: DeviceState) -> bool {
    match state {
        DeviceState::Device => word == "device"@,
        DeviceState::Offline => word == "offline"@,
        DeviceState::Unauthorized => word == "unauthorized"@,
        DeviceState::Bootloader => word == "bootloader"@,
        DeviceState::Recovery => word == "recovery"@,
        DeviceState::Sideload => word == "sideload"@,
        DeviceState::Unknown => word != "device"@ && word != "offline"@ && word != "unauthorized"@
            && word != "bootloader"@ && word != "recovery"@ && word != "sideload"@,
    }
}

proof fn lemma_states(word: Seq<char>, state: DeviceState)
    requires
        names_state(word, state),
    ensures
        DeviceState::of_token(word) == state,
{
    reveal_strlit("device");
    reveal_strlit("offline");
    reveal_strlit("unauthorized");
    reveal_strlit("bootloader");
    reveal_strlit("recovery");
    reveal_strlit("sideload");
    assert("device"@.len() == 6 && "offline"@.len() == 7 && "unauthorized"@.len() == 12 && "bootloader"@.len() == 10);
    assert("recovery"@[0] == 'r' && "sideload"@[0] == 's' && "recovery"@.len() == 8);
}

/// A line of `adb devices -l` begins with the serial and the state, and is a device
/// whatever the state is; a line with less is none.
pub proof fn law_device_lines_read_back(words: Seq<Seq<char>>, gaps: Seq<Seq<char>>, tail: Seq<char>, state: DeviceState)
    requires
        all_solid(words),
        gaps_for(words, gaps),
        is_gap(tail),
        words.len() >= 2 ==> names_state(words[1], state),
    ensures
        ({
            let line = spread(words, gaps) + tail;
            &&& words.len() < 2 ==> device_line(line) is None
            &&& words.len() >= 2 ==> {
                &&& device_line(line) matches Some(device)
                &&& device.serial == words[0]
                &&& device.state == state
                &&& device.state_raw == words[1]
                &&& device.android_version is None && device.sdk is None && device.root_available is None
                    && device.root_reason is None
            }
            &&& words.len() == 2 ==> {
                &&& device_line(line) matches Some(device)
                &&& device.model is None && device.product is None && device.device is None && device.transport_id is None
            }
        }),
{
    law_words_read_back(words, gaps, tail);
    if words.len() >= 2 {
        lemma_states(words[1], state);
        lemma_tokens_keep(DeviceView::bare(words[0], state, words[1]), words.skip(2));
        if words.len() == 2 {
            assert(words.skip(2) =~= seq![]);
        }
    }
}

proof fn lemma_tokens_keep(device: DeviceView, all: Seq<Seq<char>>)
    ensures
        ({
            let after = device.with_tokens(all);
            &&& after.serial == device.serial && after.state == device.state && after.state_raw == device.state_raw
            &&& after.android_version == device.android_version && after.sdk == device.sdk
            &&& after.root_available == device.root_available && after.root_reason == device.root_reason
            &&& after.recovery == device.recovery
        }),
    decreases all.len(),
{
    if all.len() > 0 {
        lemma_tokens_keep(device, all.drop_last());
    }
}

/// Each pair behind the state sets its own field and no other; a key that is not known
/// sets none. In a model the underscores stand for spaces.
pub proof fn law_device_attributes(
    words: Seq<Seq<char>>,
    gaps: Seq<Seq<char>>,
    gap: Seq<char>,
    key: Seq<char>,
    value: Seq<char>,
)
    requires
        all_solid(words),
        gaps_for(words, gaps),
        words.len() >= 2,
        is_gap(gap),
        gap.len() > 0,
        lacks(key, ':'),
        is_solid(key + seq![':'] + value),
    ensures
        ({
            let before = device_line(spread(words, gaps))->0;
            let after = device_line(spread(words.push(key + seq![':'] + value), gaps.push(gap)))->0;
            let spaced = value.map_values(|c: char| if c == '_' { ' ' } else { c });
            &&& after.model == if key == "model"@ { Some(spaced) } else { before.model }
            &&& after.product == if key == "product"@ { Some(value) } else { before.product }
            &&& after.device == if key == "device"@ { Some(value) } else { before.device }
            &&& after.transport_id == if key == "transport_id"@ { Some(value) } else { before.transport_id }
            &&& after.recovery == before.recovery
        }),
{
    let token = key + seq![':'] + value;
    let more = words.push(token);
    let wider = gaps.push(gap);
    assert forall|i: int| 0 <= i < more.len() implies is_solid(#[trigger] more[i]) by {
        if i < words.len() {
            assert(more[i] == words[i]);
        }
    }
    assert forall|i: int| 0 <= i < wider.len() implies is_gap(#[trigger] wider[i]) by {
        if i < gaps.len() {
            assert(wider[i] == gaps[i]);
        }
    }
    assert forall|i: int| 1 <= i < wider.len() implies (#[trigger] wider[i]).len() > 0 by {
        if i < gaps.len() {
            assert(wider[i] == gaps[i]);
        }
    }
    law_words_read_back(words, gaps, seq![]);
    law_words_read_back(more, wider, seq![]);
    assert(spread(words, gaps) + seq![] =~= spread(words, gaps));
    assert(spread(more, wider) + seq![] =~= spread(more, wider));
    assert(more.skip(2).drop_last() =~= words.skip(2));
    assert(more.skip(2).last() == token);
    law_split_once_reads_back(key, ':', value);
    reveal_strlit("model");
    reveal_strlit("product");
    reveal_strlit("device");
    reveal_strlit("transport_id");
    assert("model"@.len() == 5 && "product"@.len() == 7 && "device"@.len() == 6 && "transport_id"@.len() == 12);
    if value.len() > 0 {
        assert(token[key.len() as int + 1] == value[0] && token.last() == value.last());
        assert(!is_space(token[key.len() as int + 1]) && !is_space(token[token.len() - 1]));
    }
    lemma_trim_plain(value, Class::Space);
    assert(crate::device::prettified(value) =~= value.map_values(|c: char| if c == '_' { ' ' } else { c }));
}

/// A device is in recovery where adb says recovery or sideload, and where its serial says
/// so at its end.
pub proof fn law_recovery_devices(serial: Seq<char>, state: DeviceState, word: Seq<char>)
    requires
        names_state(word, state),
    ensures
        state == DeviceState::Recovery || state == DeviceState::Sideload ==> crate::device::in_recovery(
            serial,
            state,
            word,
        ),
        state == DeviceState::Device && lacks(serial, '_') ==> !crate::device::in_recovery(serial, state, word),
        crate::device::in_recovery(serial + "_recovery"@, state, word),
{
    reveal_strlit("_recovery");
    reveal_strlit("recovery");
    reveal_strlit("sideload");
    reveal_strlit("device");
    let long = crate::text::class::ascii_lower(serial + "_recovery"@);
    assert(long.skip(serial.len() as int) =~= "_recovery"@);
    if state == DeviceState::Device && lacks(serial, '_') {
        lemma_trim_plain(word, Class::Space);
        let low = crate::text::class::ascii_lower(word);
        assert(low.len() == 6);
        let folded = crate::text::class::ascii_lower(serial);
        if crate::text::search::ends_with(folded, "_recovery"@) {
            let at = folded.len() - 9;
            assert(folded.skip(at)[0] == folded[at]);
            assert(folded[at] == '_');
            crate::text::laws::law_ascii_folding(serial, serial);
            assert(crate::text::class::lower_char(serial[at]) == '_');
            assert(serial[at] == '_');
        }
    }
}

proof fn lemma_devices_front(line: Seq<char>, rest: Seq<Seq<char>>)
    ensures
        devices_in(seq![line] + rest) == devices_in(seq![line]) + devices_in(rest),
    decreases rest.len(),
{
    let all = seq![line] + rest;
    if rest.len() == 0 {
        assert(rest =~= seq![]);
        assert(all =~= seq![line]);
        assert(devices_in(rest) =~= seq![]);
        assert(devices_in(seq![line]) + devices_in(rest) =~= devices_in(seq![line]));
    } else {
        lemma_devices_front(line, rest.drop_last());
        assert(all.drop_last() =~= seq![line] + rest.drop_last());
        assert(all.last() == rest.last());
        assert(devices_in(all) =~= devices_in(seq![line]) + devices_in(rest));
    }
}

/// A list of devices is read line by line: the banner, the notices of the server and blank
/// lines are none, and every other line that is a device is one, in order.
pub proof fn law_device_lists_read_back(words: Seq<Seq<char>>, gaps: Seq<Seq<char>>, rest: Seq<char>)
    requires
        all_solid(words),
        gaps_for(words, gaps),
    ensures
        ({
            let line = spread(words, gaps);
            let trimmed = trim(line, Class::Space);
            let text = line + seq!['\n'] + rest;
            &&& words.len() < 2 ==> device_list(text) == device_list(rest)
            &&& words.len() >= 2 && words[0][0] == '*' ==> device_list(text) == device_list(rest)
            &&& starts_with(trimmed, "List of devices"@) ==> device_list(text) == device_list(rest)
            &&& words.len() >= 2 && words[0][0] != '*' && words[0] != "List"@ ==> device_list(text) == seq![
                device_line(line)->0,
            ] + device_list(rest)
        }),
{
    let line = spread(words, gaps);
    let trimmed = trim(line, Class::Space);
    lemma_spread_is_a_line(words, gaps);
    law_lines_read_back(line, rest);
    lemma_devices_front(line, lines(rest));
    assert(seq![line].drop_last() =~= seq![]);
    assert(seq![line].last() == line);
    law_words_read_back(words, gaps, seq![]);
    assert(line + seq![] =~= line);
    reveal_strlit("*");
    reveal_strlit("List of devices");
    reveal_strlit("List");
    if words.len() == 0 {
        assert(line =~= seq![]);
        lemma_trim_plain(line, Class::Space);
        assert(tokens(trimmed) =~= seq![]);
    } else {
        // Without the gap in front the words are the same.
        let flush = gaps.update(0, seq![]);
        let bare = spread(words, flush);
        let inner = spread(words.skip(1), gaps.skip(1));
        assert(flush.skip(1) =~= gaps.skip(1));
        assert(bare =~= words[0] + inner);
        assert(line =~= gaps[0] + bare);
        assert(gaps_for(words, flush)) by {
            assert forall|i: int| 0 <= i < flush.len() implies is_gap(#[trigger] flush[i]) by {
                if i > 0 {
                    assert(flush[i] == gaps[i]);
                }
            }
            assert forall|i: int| 1 <= i < flush.len() implies (#[trigger] flush[i]).len() > 0 by {
                assert(flush[i] == gaps[i]);
            }
        }
        law_words_read_back(words, flush, seq![]);
        assert(bare + seq![] =~= bare);
        lemma_spread_ends_solid(words, flush);
        assert(bare[0] == words[0][0]);
        assert(is_gap(gaps[0]));
        law_trim_reads_back(gaps[0], bare, seq![]);
        assert(gaps[0] + bare + seq![] =~= line);
        assert(trimmed == bare);
        assert(device_line(trimmed) == device_line(line));
        assert(starts_with(bare, "*"@) == (words[0][0] == '*')) by {
            assert(bare.take(1) =~= seq![bare[0]]);
            assert("*"@ =~= seq!['*']);
        }
        if words.len() >= 2 && starts_with(bare, "List of devices"@) {
            let w = words[0];
            let head = bare.take(15);
            assert forall|i: int| 0 <= i < 15 implies bare[i] == "List of devices"@[i] by {
                assert(head[i] == bare[i]);
            }
            if w.len() < 4 {
                assert(inner[0] == gaps[1][0]);
                assert(is_gap(gaps[1]));
                assert(bare[w.len() as int] == ' ');
            } else if w.len() > 4 {
                assert(bare[4] == w[4]);
                assert(!is_space(w[4]));
            } else {
                assert(w =~= "List"@) by {
                    assert forall|i: int| 0 <= i < 4 implies w[i] == "List"@[i] by {
                        assert(bare[i] == w[i]);
                    }
                }
            }
        }
    }
    assert(Seq::<DeviceView>::empty() + device_list(rest) =~= device_list(rest));
    assert(devices_in(Seq::<Seq<char>>::empty()) =~= seq![]);
    if words.len() >= 2 && words[0][0] != '*' && words[0] != "List"@ {
        assert(devices_in(seq![line]) =~= seq![device_line(line)->0]);
    }
}

proof fn lemma_spread_ends_solid(words: Seq<Seq<char>>, gaps: Seq<Seq<char>>)
    requires
        all_solid(words),
        gaps_for(words, gaps),
        words.len() > 0,
    ensures
        spread(words, gaps).len() > 0,
        !is_space(spread(words, gaps).last()),
    decreases words.len(),
{
    let ws = words.skip(1);
    let gs = gaps.skip(1);
    let inner = spread(ws, gs);
    assert(is_solid(words[0]));
    if ws.len() > 0 {
        assert forall|i: int| 0 <= i < ws.len() implies is_solid(#[trigger] ws[i]) by {
            assert(ws[i] == words[i + 1]);
        }
        assert forall|i: int| 0 <= i < gs.len() implies is_gap(#[trigger] gs[i]) by {
            assert(gs[i] == gaps[i + 1]);
        }
        assert forall|i: int| 1 <= i < gs.len() implies (#[trigger] gs[i]).len() > 0 by {
            assert(gs[i] == gaps[i + 1]);
        }
        lemma_spread_ends_solid(ws, gs);
        assert(spread(words, gaps).last() == inner.last());
    } else {
        assert(inner =~= seq![]);
        assert(spread(words, gaps) =~= gaps[0] + words[0]);
        assert(!is_space(words[0][words[0].len() - 1]));
    }
}

/// The two properties of a device are read back: a release of letters, digits and points
/// with a digit in it, and a positive SDK level. What is none of that is not believed.
pub proof fn law_properties_read_back(release: Seq<char>, sdk: i32, rest: Seq<char>)
    requires
        is_solid(release),
    ensures
        ({
            let shown = props(release + seq!['\n'] + dec_int(sdk as int) + seq!['\n'] + rest);
            let plausible = release.len() <= 16 && release[0] != '.' && (exists|i: int|
                0 <= i < release.len() && '0' <= #[trigger] release[i] <= '9') && forall|i: int|
                0 <= i < release.len() ==> is_version_char(#[trigger] release[i]);
            &&& shown.0 == if plausible { Some(release) } else { None }
            &&& shown.1 == if sdk > 0 { Some(sdk) } else { None }
        }),
        props(Seq::<char>::empty()) == (None::<Seq<char>>, None::<i32>),
{
    let d = dec_int(sdk as int);
    law_numbers_read_back(sdk);
    lemma_solid_lacks(release);
    lemma_solid_lacks(d);
    law_lines_read_back(release, d + seq!['\n'] + rest);
    law_lines_read_back(d, rest);
    assert(release + seq!['\n'] + d + seq!['\n'] + rest =~= release + seq!['\n'] + (d + seq!['\n'] + rest));
    lemma_trim_plain(release, Class::Space);
    lemma_trim_plain(d, Class::Space);
    if exists|i: int| 0 <= i < release.len() && '0' <= #[trigger] release[i] <= '9' {
        let i = choose|i: int| 0 <= i < release.len() && '0' <= #[trigger] release[i] <= '9';
        assert(Class::Digit.has(release[i]));
    }
    if any_in(release, Class::Digit) {
        let i = choose|i: int| 0 <= i < release.len() && Class::Digit.has(#[trigger] release[i]);
        assert('0' <= release[i] <= '9');
    }
    if all_in(release, Class::VersionChar) {
        assert forall|i: int| 0 <= i < release.len() implies is_version_char(#[trigger] release[i]) by {
            assert(Class::VersionChar.has(release[i]));
        }
    }
    if forall|i: int| 0 <= i < release.len() ==> is_version_char(#[trigger] release[i]) {
        assert forall|i: int| 0 <= i < release.len() implies Class::VersionChar.has(#[trigger] release[i]) by {
            assert(is_version_char(release[i]));
        }
    }
    law_lines_read_back(seq![], seq![]);
}

/// A character of an Android release.
pub open spec fn is_version_char(c: char) -> bool {
    ||| 'a' <= c <= 'z'
    ||| 'A' <= c <= 'Z'
    ||| '0' <= c <= '9'
    ||| c == '.'
}

proof fn lemma_solid_lacks(w: Seq<char>)
    requires
        is_solid(w),
    ensures
        lacks(w, '\n'),
        lacks(w, '\r'),
{
    assert forall|i: int| 0 <= i < w.len() implies (#[trigger] w[i]) != '\n' && w[i] != '\r' by {
        assert(!is_space(w[i]));
    }
}

/// What `pidof` prints is a set of positive numbers: each is there, nothing else is, and
/// they come once and in ascending order.
pub proof fn law_process_lists_read_back(pids: Seq<i32>, words: Seq<Seq<char>>, gaps: Seq<Seq<char>>)
    requires
        words == pids.map_values(|n: i32| dec_int(n as int)),
        gaps_for(words, gaps),
    ensures
        ({
            let read = crate::text::order::number_set(
                crate::device::probe::positive_numbers(tokens(spread(words, gaps))),
            );
            &&& ascending(read)
            &&& forall|n: i32| #[trigger] read.contains(n) <==> n > 0 && pids.contains(n)
        }),
{
    assert(all_solid(words)) by {
        assert forall|i: int| 0 <= i < words.len() implies is_solid(#[trigger] words[i]) by {
            law_numbers_read_back(pids[i]);
        }
    }
    law_words_read_back(words, gaps, seq![]);
    assert(spread(words, gaps) + seq![] =~= spread(words, gaps));
    let kept = crate::device::probe::positive_numbers(words);
    law_number_set(kept);
    assert forall|n: i32| #[trigger] kept.contains(n) <==> n > 0 && pids.contains(n) by {
        lemma_positive(pids, words, n);
    }
    let read = crate::text::order::number_set(kept);
    assert forall|n: i32| #[trigger] read.contains(n) <==> n > 0 && pids.contains(n) by {
        assert(read.contains(n) <==> kept.contains(n));
    }
}

proof fn lemma_positive(pids: Seq<i32>, words: Seq<Seq<char>>, n: i32)
    requires
        words == pids.map_values(|n: i32| dec_int(n as int)),
    ensures
        crate::device::probe::positive_numbers(words).contains(n) <==> n > 0 && pids.contains(n),
    decreases pids.len(),
{
    if pids.len() > 0 {
        let init = pids.drop_last();
        assert(words.drop_last() =~= init.map_values(|n: i32| dec_int(n as int)));
        lemma_positive(init, words.drop_last(), n);
        law_numbers_read_back(pids.last());
        assert(words.last() == dec_int(pids.last() as int));
        let before = crate::device::probe::positive_numbers(words.drop_last());
        let after = crate::device::probe::positive_numbers(words);
        if after.contains(n) {
            let k = choose|k: int| 0 <= k < after.len() && after[k] == n;
            if k < before.len() {
                assert(before[k] == n);
                assert(before.contains(n));
                let i = choose|i: int| 0 <= i < init.len() && init[i] == n;
                assert(pids[i] == n);
            } else {
                assert(pids[pids.len() - 1] == n);
            }
        }
        if n > 0 && pids.contains(n) {
            let i = choose|i: int| 0 <= i < pids.len() && pids[i] == n;
            if i < init.len() {
                assert(init[i] == n);
                assert(before.contains(n));
                let k = choose|k: int| 0 <= k < before.len() && before[k] == n;
                assert(after[k] == n);
            } else {
                assert(after.last() == n);
            }
        }
    }
}

/// A resolution ends with what the table of processes and the uid show. An app that runs
/// is found with all of its processes; one that runs under another name is found through
/// its uid; and one that does not run is not found, and says why.
pub proof fn law_what_a_resolution_finds(q: ResolutionView, uid: Option<i32>, now: u64)
    ensures
        ({
            let running = package_pids(q.rows, q.package);
            let by_uid = match uid {
                Some(uid) => uid_pids(q.rows, uid),
                None => seq![],
            };
            &&& q.finish(uid, now) matches StepView::Found(target)
            &&& target.input == q.input && target.serial == q.serial && target.mode == q.mode && target.resolved_at_ms
                == now && target.prefilter == Prefilter::Host
            &&& target.found <==> parse_i32(q.input) is Some || running.len() > 0 || by_uid.len() > 0
            &&& target.found ==> target.package == Some(q.package) && target.uid == uid && target.reason is None
            &&& target.found && (running.len() > 0 || parse_i32(q.input) is Some) ==> target.pids == running
            &&& target.found && running.len() == 0 && parse_i32(q.input) is None ==> target.pids == by_uid
            &&& !target.found ==> target.pids.len() == 0 && target.uid is None && target.package is None
                && target.reason is Some
            &&& target.kind == if parse_i32(q.input) is Some { AppTargetKind::Pid } else { AppTargetKind::Package }
        }),
{
}

/// A record belongs to an app that was found where it shares its process, its uid or its
/// package, and, unless the device narrowed the stream itself, nowhere else.
pub proof fn law_what_belongs_to_an_app(target: TargetView, record: RecordView)
    ensures
        target.found && (record.fields.pid matches Some(pid) && target.pids.contains(pid)) ==> target.owns(record),
        target.found && (record.fields.uid matches Some(uid) && target.uid == Some(uid)) ==> target.owns(record),
        target.found && (record.package matches Some(package) && target.package == Some(package)) ==> target.owns(
            record,
        ),
        target.prefilter != Prefilter::Uid && !(record.fields.pid matches Some(pid) && target.pids.contains(pid)) && !(
        record.fields.uid matches Some(uid) && target.uid == Some(uid)) && !(record.package matches Some(package)
            && target.package == Some(package)) ==> !target.owns(record),
        !target.found ==> !target.owns(record),
        target.found && target.prefilter == Prefilter::Uid ==> target.owns(record),
{
}

/// What is asked in a resolution.
pub proof fn law_what_a_resolution_asks(q: ResolutionView, pid: i32)
    ensures
        q.stage == ResolveStage::Cmdline(pid) ==> q.command() == "cat /proc/"@ + dec_int(pid as int) + "/cmdline"@,
        q.stage == ResolveStage::Dumpsys ==> q.command() == "dumpsys package "@ + q.package,
        q.stage == ResolveStage::PackageTable ==> q.command() == "cmd package list packages -U"@,
        q.stage == ResolveStage::PackageList ==> q.command() == "cat /data/system/packages.list"@,
{
}

/// A resolution begins with what was typed: a valid package is asked for, and what is
/// neither a number nor a package is refused.
pub proof fn law_how_a_resolution_begins(q: ResolutionView, now: u64)
    requires
        parse_i32(q.input) is None,
    ensures
        package_fault(q.input) is None <==> q.first_step(now) is Ask,
        package_fault(q.input) is Some <==> q.first_step(now) is Failed,
        q.first_step(now) matches StepView::Ask(next) ==> next.package == q.input && next.stage == ResolveStage::Dumpsys
            && next.rows == q.rows && next.input == q.input && next.serial == q.serial && next.mode == q.mode,
{
}

/// The running apps are the packages that have a process, under their own name or a
/// child's.
pub proof fn law_which_apps_run(rows: Seq<RowView>, package: Seq<char>)
    ensures
        app_names(rows).contains(package) <==> package_like(package) && exists|i: int|
            0 <= i < rows.len() && base_name((#[trigger] rows[i]).name) == package,
    decreases rows.len(),
{
    if rows.len() > 0 {
        let init = rows.drop_last();
        law_which_apps_run(init, package);
        let before = app_names(init);
        let after = app_names(rows);
        if after.contains(package) {
            let k = choose|k: int| 0 <= k < after.len() && after[k] == package;
            if k < before.len() {
                assert(before[k] == package);
                assert(before.contains(package));
                let i = choose|i: int| 0 <= i < init.len() && base_name((#[trigger] init[i]).name) == package;
                assert(rows[i] == init[i]);
            } else {
                assert(base_name(rows[rows.len() - 1].name) == package);
            }
        }
        if package_like(package) && exists|i: int| 0 <= i < rows.len() && base_name((#[trigger] rows[i]).name) == package {
            let i = choose|i: int| 0 <= i < rows.len() && base_name((#[trigger] rows[i]).name) == package;
            if i < init.len() {
                assert(init[i] == rows[i]);
                assert(before.contains(package));
                let k = choose|k: int| 0 <= k < before.len() && before[k] == package;
                assert(after[k] == package);
            } else {
                assert(after.last() == package);
            }
        }
    }
}

/// The base of a process name is what is before its first colon.
pub proof fn law_base_names(base: Seq<char>, child: Seq<char>)
    requires
        lacks(base, ':'),
    ensures
        base_name(base) == base,
        base_name(base + seq![':'] + child) == base,
{
    law_split_reads_back(base, ':', child);
}

/// A change is announced exactly where something of it is new, or where it is asked for.
pub proof fn law_what_is_announced(previous: EventView, event: EventView)
    ensures
        worth_announcing(false, Some(previous), event) <==> previous.devices != event.devices
            || previous.error != event.error || previous.adb_program != event.adb_program || previous.adb_available
            != event.adb_available,
        worth_announcing(true, Some(previous), event),
        worth_announcing(false, None, event),
{
}

/// Two targets of one identity, narrowed in one way, own the same records.
pub proof fn law_one_identity_owns_the_same(a: TargetView, b: TargetView, record: RecordView)
    ensures
        a.same_identity(b) && a.prefilter == b.prefilter ==> a.owns(record) == b.owns(record),
        a.same_identity(a),
        a.same_identity(b) <==> b.same_identity(a),
        a.found != b.found ==> !a.same_identity(b),
        a.uid != b.uid ==> !a.same_identity(b),
        a.package != b.package ==> !a.same_identity(b),
        a.pids != b.pids ==> !a.same_identity(b),
        a.found == b.found && a.uid == b.uid && a.package == b.package && a.pids == b.pids ==> a.same_identity(b),
{
}

/// The user of a process is that of its first row.
pub proof fn law_the_user_of_a_process(before: Seq<RowView>, row: RowView, after: Seq<RowView>)
    requires
        forall|i: int| 0 <= i < before.len() ==> (#[trigger] before[i]).pid != row.pid,
    ensures
        pid_user(before + seq![row] + after, row.pid) == row.user,
        pid_user(before, row.pid).len() == 0,
    decreases before.len(),
{
    let rows = before + seq![row] + after;
    if before.len() == 0 {
        assert(rows[0] == row);
    } else {
        let rest = before.skip(1);
        assert(rows[0] == before[0]);
        assert(rows.skip(1) =~= rest + seq![row] + after);
        assert forall|i: int| 0 <= i < rest.len() implies (#[trigger] rest[i]).pid != row.pid by {
            assert(rest[i] == before[i + 1]);
        }
        law_the_user_of_a_process(rest, row, after);
    }
}

/// A process whose command line names no package is followed by its number alone, under
/// the uid of its user.
pub proof fn law_processes_without_a_package(q: ResolutionView, pid: i32, cmdline: Seq<char>, now: u64)
    requires
        cmdline_package(cmdline) is None,
    ensures
        q.after_cmdline(pid, cmdline, now) matches StepView::Found(target) && target.found && target.pids == seq![pid]
            && target.package is None && target.uid == user_uid(pid_user(q.rows, pid)) && target.kind
            == AppTargetKind::Pid && target.input == q.input && target.serial == q.serial && target.mode == q.mode
            && target.resolved_at_ms == now,
{
}

/// A number's process that names a package is followed as the package.
pub proof fn law_processes_with_a_package(q: ResolutionView, pid: i32, cmdline: Seq<char>, package: Seq<char>, now: u64)
    requires
        cmdline_package(cmdline) == Some(package),
        package_fault(package) is None,
    ensures
        q.after_cmdline(pid, cmdline, now) matches StepView::Ask(next) && next.package == package && next.stage
            == ResolveStage::Dumpsys && next.input == q.input && next.rows == q.rows && next.serial == q.serial,
{
}

/// What a probe found is shown of the device alike, whether it was asked for or
/// remembered; without a probe the device is left as it is.
pub proof fn law_probes_are_shown(
    table: Map<Seq<char>, (Seq<char>, ProbeView)>,
    device: DeviceView,
    look: Seq<char>,
    probe: ProbeView,
)
    ensures
        ({
            let shown = with_probe(device, Some(probe));
            &&& shown.android_version == probe.android_version && shown.sdk == probe.sdk && shown.root_available == Some(
                probe.root_available,
            ) && shown.root_reason == probe.root_reason
            &&& shown.serial == device.serial && shown.state == device.state && shown.model == device.model
                && shown.product == device.product && shown.device == device.device && shown.recovery == device.recovery
            &&& device.state == DeviceState::Device ==> probed(table.insert(device.serial, (look, probe)), device)
                == shown
        }),
        with_probe(device, None) == device,
        !table.dom().contains(device.serial) ==> probed(table, device) == device,
        device.state != DeviceState::Device ==> probed(table, device) == device,
{
}

/// A device is probed when it is ready and new, or looks otherwise than when it was
/// probed, or the probe is asked for.
pub proof fn law_when_a_device_is_probed(
    table: Map<Seq<char>, (Seq<char>, ProbeView)>,
    device: DeviceView,
    before: DeviceView,
    probe: ProbeView,
)
    requires
        before.serial == device.serial,
    ensures
        ({
            let known = table.insert(device.serial, (appearance(before), probe));
            let ready = device.state == DeviceState::Device;
            &&& probe_needed(known, device, true) <==> ready
            &&& probe_needed(known, device, false) <==> ready && appearance(before) != appearance(device)
            &&& !table.dom().contains(device.serial) ==> (probe_needed(table, device, false) <==> ready)
        }),
        before.state_raw.len() == device.state_raw.len() && before.state_raw != device.state_raw ==> appearance(before)
            != appearance(device),
        before.state_raw == device.state_raw && before.model is Some && device.model is Some && before.model
            != device.model ==> appearance(before) != appearance(device),
        before.state_raw == device.state_raw && before.model == device.model ==> appearance(before) == appearance(device),
{
    let a = appearance(before);
    let b = appearance(device);
    let n = device.state_raw.len() as int;
    reveal_strlit("|");
    reveal_strlit("");
    if before.state_raw.len() == device.state_raw.len() {
        assert(a.take(n) =~= before.state_raw);
        assert(b.take(n) =~= device.state_raw);
        if before.state_raw == device.state_raw && before.model is Some && device.model is Some && a == b {
            let x = before.model->0;
            let y = device.model->0;
            assert("|"@.len() == 1);
            assert(a =~= before.state_raw + "|"@ + x + "|"@ + before.serial);
            assert(b =~= device.state_raw + "|"@ + y + "|"@ + device.serial);
            assert(a.len() == n + 2 + x.len() + before.serial.len());
            assert(b.len() == n + 2 + y.len() + device.serial.len());
            assert(x.len() == y.len());
            assert(a.skip(n + 1).take(x.len() as int) =~= x);
            assert(b.skip(n + 1).take(y.len() as int) =~= y);
        }
    }
}

/// A name shown of a device has spaces where adb writes underscores, and none around it.
pub proof fn law_names_are_shown_with_spaces(before: Seq<char>, name: Seq<char>, after: Seq<char>, i: int)
    requires
        is_gap(before),
        is_gap(after),
        name.len() > 0 ==> !is_space(name[0]) && !is_space(name.last()),
        0 <= i < name.len(),
    ensures
        ({
            let shown = prettified(before + name + after);
            &&& shown.len() == name.len()
            &&& name[i] == '_' ==> shown[i] == ' '
            &&& name[i] != '_' ==> shown[i] == name[i]
        }),
{
    law_trim_reads_back(before, name, after);
}

/// The label of a device tells its Android version and its API level, as far as they are
/// known.
pub proof fn law_android_labels(device: DeviceView, version: Seq<char>, sdk: i32)
    ensures
        ({
            let both = DeviceView { android_version: Some(version), sdk: Some(sdk), ..device };
            let name = DeviceView { android_version: Some(version), sdk: None, ..device };
            let level = DeviceView { android_version: None, sdk: Some(sdk), ..device };
            let nothing = DeviceView { android_version: None, sdk: None, ..device };
            &&& both.android_label() == Some("Android "@ + version + " (SDK "@ + dec_int(sdk as int) + ")"@)
            &&& name.android_label() == Some("Android "@ + version)
            &&& level.android_label() == Some("SDK "@ + dec_int(sdk as int))
            &&& nothing.android_label() is None
        }),
{
}

/// A number that is no process is followed as the uid of its processes, where it has any.
pub proof fn law_numbers_that_are_uids(q: ResolutionView, uid: i32, now: u64)
    requires
        parse_i32(q.input) == Some(uid),
        forall|i: int| 0 <= i < q.rows.len() ==> (#[trigger] q.rows[i]).pid != uid,
    ensures
        q.first_step(now) matches StepView::Found(target) && target.found == (uid_pids(q.rows, uid).len() > 0) && (
        target.found ==> target.uid == Some(uid) && target.pids == uid_pids(q.rows, uid) && target.kind
            == AppTargetKind::Uid && target.package is None) && (!target.found ==> target.uid is None && target.pids.len()
            == 0 && target.reason is Some),
{
}

/// A number that names a process but is not above 0 is refused.
pub proof fn law_no_process_is_negative(q: ResolutionView, pid: i32, i: int, now: u64)
    requires
        parse_i32(q.input) == Some(pid),
        pid <= 0,
        0 <= i < q.rows.len(),
        q.rows[i].pid == pid,
    ensures
        q.first_step(now) is Failed,
{
}

/// An app that is not found is either not there or not running: its uid tells which.
pub proof fn law_why_an_app_is_not_found(q: ResolutionView, uid: Option<i32>, now: u64)
    requires
        q.finish(uid, now) matches StepView::Found(target) && !target.found,
    ensures
        q.finish(uid, now) matches StepView::Found(target) && target.reason == Some(
            if uid is None {
                "未找到包 "@ + q.input + " —— 应用未安装或不存在"@
            } else {
                "包 "@ + q.input + " 已安装但当前没有进程运行 —— 应用未开启"@
            },
        ),
{
}

/// The processes of a running app are those whose base name is its package, and its uid
/// is the first that their users stand for.
pub proof fn law_processes_of_a_running_app(rows: Seq<RowView>, row: RowView, package: Seq<char>)
    ensures
        app_rows(seq![], package).len() == 0,
        app_row_uid(seq![], package) is None,
        base_name(row.name) == package ==> app_rows(rows.push(row), package) == app_rows(rows, package).push(row.pid),
        base_name(row.name) != package ==> app_rows(rows.push(row), package) == app_rows(rows, package),
        app_row_uid(rows, package) is Some ==> app_row_uid(rows.push(row), package) == app_row_uid(rows, package),
        app_row_uid(rows, package) is None && base_name(row.name) == package ==> app_row_uid(rows.push(row), package)
            == user_uid(row.user),
        app_row_uid(rows, package) is None && base_name(row.name) != package ==> app_row_uid(rows.push(row), package)
            is None,
        ({
            let app = app_of(rows, package);
            &&& app.package == package
            &&& app.uid == app_row_uid(rows, package)
            &&& forall|pid: i32| #[trigger] app.pids.contains(pid) <==> app_rows(rows, package).contains(pid)
        }),
{
    assert(rows.push(row).drop_last() =~= rows);
    law_number_set(app_rows(rows, package));
}

/// Logcat narrows by uid where its usage text says so, on either stream; and what a fresh
/// library resolves is kept for half a minute.
pub proof fn law_what_is_remembered(output: OutputView)
    ensures
        lists_uid(output) <==> contains(output.stdout, seq!['-', '-', 'u', 'i', 'd']) || contains(
            output.stderr,
            seq!['-', '-', 'u', 'i', 'd'],
        ),
        StateView::fresh().resolver.ttl == 30_000,
{
    reveal_strlit("--uid");
    assert("--uid"@ =~= seq!['-', '-', 'u', 'i', 'd']);
}

/// Users that are neither a number, one of the four that Android names, nor an app stand for
/// no uid.
pub proof fn law_other_users(user: Seq<char>)
    requires
        is_solid(user),
        !('0' <= user[0] <= '9'),
        user[0] != '+',
        user[0] != '-',
        user[0] != 'u' || lacks(user, '_'),
        user != "root"@,
        user != "system"@,
        user != "radio"@,
        user != "shell"@,
    ensures
        user_uid(user) is None,
        user[0] != 'u' ==> crate::parser::logcat::uid_token(user) is None,
{
    lemma_no_number(user);
    reveal_strlit("_a");
    reveal_strlit("uid=");
    if user[0] == 'u' {
        let t = user.skip(1);
        if contains(t, "_a"@) {
            let at = choose|at: int| occurs_at(t, "_a"@, at);
            assert(t.subrange(at, at + 2)[0] == t[at]);
            assert(t[at] == user[at + 1]);
        }
        crate::text::search::lemma_contains(t, "_a"@);
    } else {
        lemma_trim_plain(user, Class::Space);
        if user.len() >= 4 {
            assert(user.take(4)[0] == user[0]);
            assert("uid="@[0] == 'u');
        }
    }
}

} // verus!
