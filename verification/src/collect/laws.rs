//! Which place a device is read from, and what its answers are taken for.

use vstd::prelude::*;
use crate::collect::profile::{
    buffers_in, era, first_text, kernel_version, profile_of, KernelEra, ProfileView,
};
use crate::collect::boot::{boot_completed, reads_kernel_ring, BootView, Window};
use crate::collect::flow::{steps, Clocks, CollectionView, StageView};
use crate::collect::ingest::{crash_of, fresh_lines, ingest_line, line_hash, tail_set, IngestView, TAIL_MEMORY};
use crate::collect::probe::{
    diagnosis, plain_names, read_back, tail_text, worth_reading, OutcomeView, Probe, ProbeStatus, PSTORE_FILES,
};
use crate::collect::report::{total_records, ReportView};
use crate::collect::run::{stderr_detail, RunView};
use crate::collect::{settled, worth_running, Run};
use crate::crash::{clean_boot_phrases, crash_kind, denial_phrases, mentions, record_text};
use crate::error::Result;
use crate::executor::ExecOutput;
use crate::parser::record::{LogLevel, RecordView};
use crate::process::StatusView;
use crate::state::{next_number, StateView};
use crate::text::chars::views;
use crate::text::class::{is_space, lowercase, Class};
use crate::text::laws::{
    is_gap, lacks, law_lines_read_back, law_split_once_reads_back, law_trim_reads_back, lemma_contains_infix,
    lemma_dec_digits,
};
use crate::text::number::{dec, law_dec_reads_back};
use crate::text::order::texts_descending;
use crate::text::search::{all_in, any_in, contains, lemma_span, lemma_span_is, lemma_trim_plain, span, trim};
use crate::text::split::{join, lines, split, split_once};

verus! {

/// The version is at most the other one: the major number decides, and among equal ones
/// the minor.
pub open spec fn not_newer(a: (u32, u32), b: (u32, u32)) -> bool {
    a.0 < b.0 || (a.0 == b.0 && a.1 <= b.1)
}

/// The generation of a kernel follows the order of versions, and changes once: 3.4 and
/// everything before it is of the old one, 3.5 and everything behind it of the new one.
pub proof fn law_generations_follow_versions(a: (u32, u32), b: (u32, u32))
    ensures
        not_newer(a, b) && era(Some(a)) == KernelEra::Pstore ==> era(Some(b)) == KernelEra::Pstore,
        not_newer(a, b) && era(Some(b)) == KernelEra::LegacyLastKmsg ==> era(Some(a)) == KernelEra::LegacyLastKmsg,
        not_newer(a, (3, 4)) ==> era(Some(a)) == KernelEra::LegacyLastKmsg,
        not_newer((3, 5), a) ==> era(Some(a)) == KernelEra::Pstore,
        era(None) == KernelEra::Unknown,
{
}

proof fn lemma_split_class(a: Seq<char>, c: char, b: Seq<char>, k: Class)
    requires
        forall|i: int| 0 <= i < a.len() ==> !k.has(#[trigger] a[i]),
        k.has(c),
    ensures
        split(a + seq![c] + b, k) == seq![a] + split(b, k),
{
    let s = a + seq![c] + b;
    assert forall|i: int| 0 <= i < a.len() implies k.has(#[trigger] s[i]) == false by {
        assert(s[i] == a[i]);
    }
    assert(s[a.len() as int] == c);
    lemma_span_is(s, k, false, a.len() as int);
    assert(s.take(a.len() as int) =~= a);
    assert(s.skip(a.len() as int + 1) =~= b);
}

/// What may follow the minor number of a release.
pub open spec fn is_release_tail(tail: Seq<char>) -> bool {
    &&& lacks(tail, '\n')
    &&& tail.len() > 0 ==> !('0' <= tail[0] <= '9') && !is_space(tail.last())
}

/// A kernel release is read back: its first two numbers, whatever follows them.
pub proof fn law_releases_read_back(major: u32, minor: u32, tail: Seq<char>)
    requires
        is_release_tail(tail),
    ensures
        kernel_version(dec(major as nat) + seq!['.'] + dec(minor as nat) + tail) == Some((major, minor)),
{
    let a = dec(major as nat);
    let b = dec(minor as nat);
    let k = Class::ReleaseSep;
    let line = a + seq!['.'] + b + tail;
    let rest = b + tail;
    lemma_dec_digits(major as nat);
    lemma_dec_digits(minor as nat);
    law_dec_reads_back(major as nat);
    law_dec_reads_back(minor as nat);
    assert(lacks(line, '\n')) by {
        assert forall|i: int| 0 <= i < line.len() implies (#[trigger] line[i]) != '\n' by {
            if i < a.len() {
                assert(line[i] == a[i]);
            } else if a.len() < i <= a.len() + b.len() {
                assert(line[i] == b[i - a.len() - 1]);
            } else if a.len() + b.len() < i {
                assert(line[i] == tail[i - a.len() - 1 - b.len()]);
            }
        }
    }
    law_lines_read_back(line, seq![]);
    assert(line[0] == a[0]);
    assert(line.last() == if tail.len() > 0 { tail.last() } else { b.last() });
    lemma_trim_plain(line, Class::Space);
    assert(lines(line)[0] == line);
    assert(first_text(lines(line)) == Some(line));
    assert forall|i: int| 0 <= i < a.len() implies !k.has(#[trigger] a[i]) by {}
    assert(line =~= a + seq!['.'] + rest);
    lemma_split_class(a, '.', rest, k);
    let parts = split(line, k);
    assert(parts[0] == a);
    lemma_span(rest, k, false);
    let n = span(rest, k, false);
    let second = split(rest, k)[0];
    assert(parts[1] == second);
    if n < b.len() {
        assert(rest[n] == b[n]);
        assert(k.has(b[n]));
    }
    assert(second =~= rest.take(n));
    assert forall|i: int| 0 <= i < b.len() implies Class::Digit.has(#[trigger] second[i]) == true by {
        assert(second[i] == b[i]);
    }
    if b.len() < second.len() {
        assert(second[b.len() as int] == tail[0]);
    }
    lemma_span_is(second, Class::Digit, true, b.len() as int);
    assert(second.take(b.len() as int) =~= b);
}

/// The log of the previous boot is read where the kernel that the device names keeps it:
/// from 3.5 on under pstore and only there, and up to 3.4 in `/proc/last_kmsg` and only
/// there.
pub proof fn law_the_release_decides_the_place(
    major: u32,
    minor: u32,
    tail: Seq<char>,
    buffers: Option<Seq<char>>,
)
    requires
        is_release_tail(tail),
    ensures
        ({
            let stdout = dec(major as nat) + seq!['.'] + dec(minor as nat) + tail + seq!['\n'];
            let profile = profile_of(Some(stdout), buffers);
            &&& worth_running("boot-pstore"@, profile) == not_newer((3, 5), (major, minor))
            &&& worth_running("recovery-pstore"@, profile) == not_newer((3, 5), (major, minor))
            &&& worth_running("boot-last-kmsg"@, profile) == not_newer((major, minor), (3, 4))
        }),
{
    let line = dec(major as nat) + seq!['.'] + dec(minor as nat) + tail;
    let stdout = line + seq!['\n'];
    let profile = profile_of(Some(stdout), buffers);
    lemma_dec_digits(major as nat);
    lemma_dec_digits(minor as nat);
    law_releases_read_back(major, minor, tail);
    assert(line[0] == dec(major as nat)[0]);
    assert(line.last() == if tail.len() > 0 { tail.last() } else { dec(minor as nat).last() });
    law_trim_reads_back(seq![], line, seq!['\n']);
    assert(seq![] + line + seq!['\n'] =~= stdout);
    assert(profile.kernel == Some((major, minor)));
    lemma_probe_ids();
}

proof fn lemma_probe_ids()
    ensures
        "boot-pstore"@ != "crash-events"@,
        "boot-pstore"@ != "boot-kernel"@,
        "boot-pstore"@ != "crash-kernel"@,
        "boot-pstore"@ != "boot-dmesg"@,
        "boot-pstore"@ != "boot-last-kmsg"@,
        "boot-last-kmsg"@ != "crash-events"@,
        "boot-last-kmsg"@ != "boot-kernel"@,
        "boot-last-kmsg"@ != "crash-kernel"@,
        "boot-last-kmsg"@ != "boot-dmesg"@,
        "recovery-pstore"@ != "crash-events"@,
        "recovery-pstore"@ != "boot-kernel"@,
        "recovery-pstore"@ != "crash-kernel"@,
        "recovery-pstore"@ != "boot-dmesg"@,
        "recovery-pstore"@ != "boot-last-kmsg"@,
        "crash-events"@ != "boot-kernel"@,
        "crash-events"@ != "crash-kernel"@,
        "boot-dmesg"@ != "boot-kernel"@,
        "boot-dmesg"@ != "crash-kernel"@,
        "boot-dmesg"@ != "crash-events"@,
        "crash-kernel"@ != "crash-events"@,
        "boot-kernel"@ != "crash-events"@,
{
    reveal_strlit("crash-events");
    reveal_strlit("boot-kernel");
    reveal_strlit("crash-kernel");
    reveal_strlit("boot-dmesg");
    reveal_strlit("boot-last-kmsg");
    reveal_strlit("boot-pstore");
    reveal_strlit("recovery-pstore");
    assert("boot-pstore"@[5] == 'p' && "boot-kernel"@[5] == 'k' && "crash-kernel"@[6] == 'k');
    assert("boot-dmesg"@[5] == 'd' && "crash-events"@[6] == 'e');
    assert("recovery-pstore"@[0] == 'r' && "boot-last-kmsg"@[0] == 'b');
}

/// Which buffers a device has decides which probes are run: the events are read where
/// there are events, and the kernel ring through logcat where logcat has it, and with
/// `dmesg` where not.
pub proof fn law_the_buffers_decide_the_probes(profile: ProfileView)
    requires
        profile.logcat_buffers.len() > 0,
    ensures
        worth_running("crash-events"@, profile) == profile.logcat_buffers.contains("events"@),
        worth_running("crash-kernel"@, profile) == profile.logcat_buffers.contains("kernel"@),
        worth_running("boot-kernel"@, profile) == profile.logcat_buffers.contains("kernel"@),
        worth_running("boot-dmesg"@, profile) == !profile.logcat_buffers.contains("kernel"@),
{
    lemma_probe_ids();
}

/// A character of a buffer name.
pub open spec fn is_buffer_char(c: char) -> bool {
    ||| 'a' <= c <= 'z'
    ||| '0' <= c <= '9'
    ||| c == '_'
}

/// A line of `logcat -g` that tells of a ring buffer adds that buffer, once; any other
/// line adds nothing.
pub proof fn law_buffers_read_back(before: Seq<Seq<char>>, gap: Seq<char>, name: Seq<char>, a: Seq<char>, b: Seq<char>)
    requires
        is_gap(gap),
        0 < name.len() <= 16,
        forall|i: int| 0 <= i < name.len() ==> is_buffer_char(#[trigger] name[i]),
    ensures
        ({
            let line = gap + name + seq![':'] + a + "ring buffer"@ + b;
            buffers_in(before.push(line)) == if buffers_in(before).contains(name) {
                buffers_in(before)
            } else {
                buffers_in(before).push(name)
            }
        }),
        forall|line: Seq<char>| !contains(line, "ring buffer"@) ==> #[trigger] buffers_in(before.push(line))
            == buffers_in(before),
{
    let line = gap + name + seq![':'] + a + "ring buffer"@ + b;
    let head = gap + name;
    let rest = a + "ring buffer"@ + b;
    assert(lacks(head, ':')) by {
        assert forall|i: int| 0 <= i < head.len() implies (#[trigger] head[i]) != ':' by {
            if i < gap.len() {
                assert(head[i] == gap[i]);
            } else {
                assert(head[i] == name[i - gap.len()]);
                assert(is_buffer_char(name[i - gap.len()]));
            }
        }
    }
    assert(line =~= head + seq![':'] + rest);
    law_split_once_reads_back(head, ':', rest);
    lemma_contains_infix(a, "ring buffer"@, b);
    assert(is_buffer_char(name[0]) && is_buffer_char(name.last()));
    law_trim_reads_back(gap, name, seq![]);
    assert(gap + name + seq![] =~= head);
    assert(all_in(name, Class::BufferChar)) by {
        assert forall|i: int| 0 <= i < name.len() implies Class::BufferChar.has(#[trigger] name[i]) by {
            assert(is_buffer_char(name[i]));
        }
    }
    assert(before.push(line).drop_last() =~= before);
    assert forall|line: Seq<char>| !contains(line, "ring buffer"@) implies #[trigger] buffers_in(before.push(line))
        == buffers_in(before) by {
        assert(before.push(line).drop_last() =~= before);
        match split_once(line, Class::One(':')) {
            Some((head, rest)) => {
                if contains(rest, "ring buffer"@) {
                    crate::text::laws::law_contains_is_infix(rest, "ring buffer"@);
                    let (x, y) = choose|x: Seq<char>, y: Seq<char>| rest == #[trigger] (x + "ring buffer"@ + y);
                    lemma_span(line, Class::One(':'), false);
                    let n = span(line, Class::One(':'), false);
                    assert(rest == line.skip(n + 1));
                    assert(line =~= line.take(n + 1) + rest);
                    assert(line =~= (line.take(n + 1) + x) + "ring buffer"@ + y);
                    lemma_contains_infix(line.take(n + 1) + x, "ring buffer"@, y);
                }
            },
            None => {},
        }
    }
}

/// Says that the kernel ring is restricted.
pub open spec fn is_restriction(t: Seq<char>) -> bool {
    ||| contains(t, "dmesg_restrict"@)
    ||| contains(t, "klogctl"@)
    ||| contains(t, "operation not permitted"@)
}

/// Says that reading is refused.
pub open spec fn is_refusal(t: Seq<char>) -> bool {
    ||| contains(t, "permission denied"@)
    ||| contains(t, "not permitted"@)
    ||| contains(t, "access denied"@)
}

/// Says that there is no such thing.
pub open spec fn is_absence(t: Seq<char>) -> bool {
    ||| contains(t, "no such file or directory"@)
    ||| contains(t, "not found"@)
}

/// What the answer of a probe is taken for. Output of a command that succeeded is found,
/// whatever it says; otherwise what the device says on stderr decides, a restriction
/// before a refusal before an absence; and where it says none of that, output is found all
/// the same, silence is empty, and a complaint is a failure.
pub proof fn law_answers_are_diagnosed(stdout: Seq<char>, stderr: Seq<char>, code: i32)
    ensures
        ({
            let status = diagnosis(stdout, stderr, code);
            let silent = trim(stdout, Class::Space).len() == 0;
            let mute = trim(stderr, Class::Space).len() == 0;
            let fine = !silent && code == 0;
            &&& fine ==> status == ProbeStatus::Found
            &&& !fine && is_restriction(stderr) ==> status == ProbeStatus::Restricted
            &&& !fine && !is_restriction(stderr) && is_refusal(stderr) ==> status == ProbeStatus::Denied
            &&& !fine && !is_restriction(stderr) && !is_refusal(stderr) && is_absence(stderr) ==> status
                == ProbeStatus::Missing
            &&& !fine && !is_restriction(stderr) && !is_refusal(stderr) && !is_absence(stderr) ==> status == if !silent {
                ProbeStatus::Found
            } else if mute {
                ProbeStatus::Empty
            } else {
                ProbeStatus::Failed
            }
        }),
{
    let p = denial_phrases();
    assert(p[0] == "permission denied"@ && p[1] == "operation not permitted"@ && p[2] == "not permitted"@ && p[3]
        == "access denied"@ && p[4] == "dmesg_restrict"@);
    if mentions(stderr, p) {
        let i = choose|i: int| 0 <= i < p.len() && contains(stderr, #[trigger] p[i]);
        assert(i == 0 || i == 1 || i == 2 || i == 3 || i == 4);
    }
    assert(contains(stderr, p[0]) || contains(stderr, p[2]) || contains(stderr, p[3]) ==> mentions(stderr, p));
}

/// The same words tell a refusal and a clean boot wherever they are looked for.
pub proof fn law_refusals_and_clean_boots(t: Seq<char>)
    ensures
        mentions(t, denial_phrases()) <==> is_refusal(t) || contains(t, "operation not permitted"@) || contains(
            t,
            "dmesg_restrict"@,
        ),
        mentions(t, clean_boot_phrases()) <==> {
            ||| contains(t, "no kernel panic"@)
            ||| contains(t, "no crash"@)
            ||| contains(t, "no valid data"@)
            ||| contains(t, "record is empty"@)
        },
{
    let p = denial_phrases();
    assert(p[0] == "permission denied"@ && p[1] == "operation not permitted"@ && p[2] == "not permitted"@ && p[3]
        == "access denied"@ && p[4] == "dmesg_restrict"@);
    if mentions(t, p) {
        let i = choose|i: int| 0 <= i < p.len() && contains(t, #[trigger] p[i]);
        assert(i == 0 || i == 1 || i == 2 || i == 3 || i == 4);
    }
    assert(contains(t, p[0]) || contains(t, p[1]) || contains(t, p[2]) || contains(t, p[3]) || contains(t, p[4])
        ==> mentions(t, p));
    let q = clean_boot_phrases();
    assert(q[0] == "no kernel panic"@ && q[1] == "no crash"@ && q[2] == "no valid data"@ && q[3] == "record is empty"@);
    if mentions(t, q) {
        let i = choose|i: int| 0 <= i < q.len() && contains(t, #[trigger] q[i]);
        assert(i == 0 || i == 1 || i == 2 || i == 3);
    }
    assert(contains(t, q[0]) || contains(t, q[1]) || contains(t, q[2]) || contains(t, q[3]) ==> mentions(t, q));
}

/// A file is read back from the directory it was listed in, whether or not that was
/// written with a slash behind it.
pub proof fn law_files_are_read_from_their_directory(dir: Seq<char>, file: Seq<char>)
    requires
        dir.len() > 0,
        dir.last() != '/',
    ensures
        read_back(dir, file) == seq!['c', 'a', 't', ' '] + dir + seq!['/'] + file,
        read_back(dir + seq!['/'], file) == read_back(dir, file),
{
    reveal_strlit("cat ");
    reveal_strlit("/");
    assert("cat "@ =~= seq!['c', 'a', 't', ' ']);
    assert("/"@ =~= seq!['/']);
    let k = Class::One('/');
    crate::text::search::lemma_tail_span_is(dir, k, true, 0);
    assert(crate::text::search::trim_end(dir, k) =~= dir);
    let longer = dir + seq!['/'];
    assert(longer[longer.len() - 1] == '/');
    assert(longer[longer.len() - 2] == dir.last());
    crate::text::search::lemma_tail_span_is(longer, k, true, 1);
    assert(crate::text::search::trim_end(longer, k) =~= dir);
}

/// A line of a listing names a file where it is one word without a slash, and nothing
/// else does.
pub proof fn law_listed_names(before: Seq<Seq<char>>, gap: Seq<char>, name: Seq<char>, other: Seq<char>)
    requires
        is_gap(gap),
        crate::text::laws::is_solid(name),
        crate::text::laws::is_solid(other),
    ensures
        plain_names(before.push(gap + name)) == if lacks(name, '/') {
            plain_names(before).push(name)
        } else {
            plain_names(before)
        },
        plain_names(before.push(gap)) == plain_names(before),
        plain_names(before.push(gap + name + seq![' '] + other)) == plain_names(before),
{
    let whole = gap + name;
    assert(before.push(whole).drop_last() =~= before);
    law_trim_reads_back(gap, name, seq![]);
    assert(gap + name + seq![] =~= whole);
    assert(!any_in(name, Class::Space)) by {
        assert forall|i: int| 0 <= i < name.len() implies !Class::Space.has(#[trigger] name[i]) by {
            assert(!is_space(name[i]));
        }
    }
    if lacks(name, '/') {
        assert(!any_in(name, Class::One('/')));
    } else {
        let i = choose|i: int| 0 <= i < name.len() && (#[trigger] name[i]) == '/';
        assert(Class::One('/').has(name[i]));
    }
    assert(before.push(gap).drop_last() =~= before);
    law_trim_reads_back(gap, seq![], seq![]);
    assert(gap + seq![] + seq![] =~= gap);
    let pair = name + seq![' '] + other;
    let line = gap + name + seq![' '] + other;
    assert(line =~= gap + pair + seq![]);
    assert(pair[0] == name[0] && pair.last() == other.last());
    law_trim_reads_back(gap, pair, seq![]);
    assert(pair[name.len() as int] == ' ');
    assert(Class::Space.has(pair[name.len() as int]));
    assert(before.push(line).drop_last() =~= before);
}

/// Of a listing the greatest names are read, as many as allowed: none is read twice more
/// often than it is listed, and none that is left out is greater than one that is read.
pub proof fn law_the_newest_files_are_read(stdout: Seq<char>, limit: nat, i: int, j: int)
    ensures
        ({
            let names = plain_names(lines(stdout));
            let sorted = texts_descending(names);
            let read = worth_reading(stdout, limit);
            &&& read.len() == if names.len() <= limit { names.len() } else { limit }
            &&& sorted.to_multiset() == names.to_multiset()
            &&& read == sorted.take(read.len() as int)
            &&& 0 <= i < j < sorted.len() ==> !crate::text::order::text_less(sorted[i], sorted[j])
        }),
{
    let names = plain_names(lines(stdout));
    let sorted = texts_descending(names);
    crate::text::order::law_texts_descending(names);
    assert(sorted.len() == names.len()) by {
        sorted.to_multiset_ensures();
        names.to_multiset_ensures();
    }
    assert(worth_reading(stdout, limit) =~= sorted.take(worth_reading(stdout, limit).len() as int));
}

proof fn lemma_lines_of_join(all: Seq<Seq<char>>)
    requires
        all.len() > 0,
        all.last().len() > 0,
        forall|i: int| 0 <= i < all.len() ==> lacks(#[trigger] all[i], '\n') && ((#[trigger] all[i]).len() == 0
            || all[i].last() != '\r'),
    ensures
        lines(join(all, seq!['\n'])) == all,
    decreases all.len(),
{
    if all.len() == 1 {
        assert(lacks(all[0], '\n'));
        law_lines_read_back(all[0], seq![]);
        assert(all =~= seq![all[0]]);
    } else {
        let rest = all.skip(1);
        assert forall|i: int| 0 <= i < rest.len() implies lacks(#[trigger] rest[i], '\n') && (rest[i].len() == 0
            || rest[i].last() != '\r') by {
            assert(rest[i] == all[i + 1]);
        }
        assert(rest.last() == all.last());
        lemma_lines_of_join(rest);
        crate::text::split::lemma_join_front(all, seq!['\n']);
        assert(lacks(all[0], '\n'));
        law_lines_read_back(all[0], join(rest, seq!['\n']));
        assert(seq![all[0]] + rest =~= all);
    }
}

/// Output that is too long is cut to its newest lines: to exactly as many as allowed, and
/// exactly the last ones. Output that is not stays as it is.
pub proof fn law_the_newest_lines_are_kept(all: Seq<Seq<char>>, limit: nat)
    requires
        limit > 0,
        all.len() > 0,
        all.last().len() > 0,
        forall|i: int| 0 <= i < all.len() ==> lacks(#[trigger] all[i], '\n') && ((#[trigger] all[i]).len() == 0
            || all[i].last() != '\r'),
    ensures
        ({
            let text = join(all, seq!['\n']);
            let (kept, cut) = tail_text(text, limit);
            &&& cut == (all.len() > limit)
            &&& !cut ==> kept == text
            &&& cut ==> lines(kept) == all.skip(all.len() - limit)
        }),
{
    let text = join(all, seq!['\n']);
    lemma_lines_of_join(all);
    reveal_strlit("\n");
    assert("\n"@ =~= seq!['\n']);
    if all.len() > limit {
        let last = all.skip(all.len() - limit);
        assert forall|i: int| 0 <= i < last.len() implies lacks(#[trigger] last[i], '\n') && (last[i].len() == 0
            || last[i].last() != '\r') by {
            assert(last[i] == all[i + all.len() - limit]);
        }
        assert(last.last() == all.last());
        lemma_lines_of_join(last);
    }
}

/// A device has booted where one of the lines it answers is a one.
pub proof fn law_boot_is_completed_by_a_one(line: Seq<char>, rest: Seq<char>)
    requires
        lacks(line, '\n'),
        lacks(line, '\r'),
    ensures
        boot_completed(line + seq!['\n'] + rest) <==> trim(line, Class::Space) == seq!['1'] || boot_completed(rest),
        !boot_completed(Seq::<char>::empty()),
{
    reveal_strlit("1");
    assert("1"@ =~= seq!['1']);
    law_lines_read_back(line, rest);
    let text = line + seq!['\n'] + rest;
    let all = lines(text);
    assert(all == seq![line] + lines(rest));
    if boot_completed(text) {
        let i = choose|i: int| 0 <= i < all.len() && trim(#[trigger] all[i], Class::Space) == "1"@;
        if i > 0 {
            assert(lines(rest)[i - 1] == all[i]);
        } else {
            assert(all[0] == line);
        }
    }
    if trim(line, Class::Space) == seq!['1'] {
        assert(all[0] == line);
        assert(trim(all[0], Class::Space) == "1"@);
    }
    if boot_completed(rest) {
        let i = choose|i: int| 0 <= i < lines(rest).len() && trim(#[trigger] lines(rest)[i], Class::Space) == "1"@;
        assert(all[i + 1] == lines(rest)[i]);
    }
}

/// A poll takes exactly the lines whose hash the last one did not leave behind, in order,
/// and leaves behind the hashes of its own last lines.
pub proof fn law_only_new_lines_are_taken(all: Seq<Seq<char>>, line: Seq<char>, skip: Set<u64>)
    ensures
        fresh_lines(all.push(line), skip) == if skip.contains(line_hash(line)) {
            fresh_lines(all, skip)
        } else {
            fresh_lines(all, skip).push(line)
        },
        fresh_lines(Seq::<Seq<char>>::empty(), skip).len() == 0,
        tail_set(all.push(line)).contains(line_hash(line)),
        all.len() <= 4000 ==> forall|i: int| 0 <= i < all.len() ==> tail_set(all).contains(line_hash(#[trigger] all[i])),
{
    let more = all.push(line);
    assert(more.drop_last() =~= all);
    assert(more[more.len() - 1] == line);
    assert(line_hash(more[more.len() - 1]) == line_hash(line));
    if all.len() <= 4000 {
        assert forall|i: int| 0 <= i < all.len() implies tail_set(all).contains(line_hash(#[trigger] all[i])) by {
            assert(all.len() - TAIL_MEMORY <= i);
        }
    }
}

/// The polls of a boot run end exactly where the device has booted, where the window is
/// over, where the ring may not be read, or where it can not be asked; and after a
/// snapshot of the ring the first poll takes nothing.
pub proof fn law_polling_ends(
    c: CollectionView,
    reply: Result<ExecOutput>,
    i: IngestView,
    s: StateView,
    clocks: Clocks,
    after: CollectionView,
    ingest: IngestView,
    state: StateView,
)
    requires
        steps(c, reply, i, s, clocks, after, ingest, state),
    ensures
        c.stage matches StageView::BootState(polling) ==> {
            let booted = reply matches Ok(output) && boot_completed(output.stdout@);
            &&& after.stage is Over <==> booted || clocks.ticks >= polling.deadline
            &&& !(after.stage is Over) ==> after.stage is Rest
            &&& ingest == i && state == s
        },
        c.stage matches StageView::Poll(polling) ==> {
            let status = match reply {
                Ok(output) => diagnosis(output.stdout@, lowercase(output.stderr@), output.code),
                Err(_) => ProbeStatus::Failed,
            };
            &&& after.stage is Over <==> reply is Err || status == ProbeStatus::Restricted || status
                == ProbeStatus::Denied
            &&& !(after.stage is Over) ==> after.stage is BootState
            &&& reply is Err || polling.boot.seed_only ==> ingest == i && state == s
        },
{
}

/// The records of a report are those of its probes together, and its remedies are those
/// of its probes, each once and in order.
pub proof fn law_reports_add_up(outcomes: Seq<OutcomeView>, outcome: OutcomeView)
    ensures
        total_records(outcomes) + outcome.records <= usize::MAX ==> total_records(outcomes.push(outcome)) == total_records(
            outcomes,
        ) + outcome.records,
        ReportView::remedies(outcomes.push(outcome)) == match outcome.hint {
            Some(hint) => if ReportView::remedies(outcomes).contains(hint) {
                ReportView::remedies(outcomes)
            } else {
                ReportView::remedies(outcomes).push(hint)
            },
            None => ReportView::remedies(outcomes),
        },
        total_records(Seq::<OutcomeView>::empty()) == 0,
        ReportView::remedies(Seq::<OutcomeView>::empty()).len() == 0,
{
    assert(outcomes.push(outcome).drop_last() =~= outcomes);
}

/// The kernel ring counts as read where the probe of the kernel buffer or that of dmesg
/// took records from it; a poll then only takes what comes after.
pub proof fn law_what_a_poll_starts_from(window: Window, profile: ProfileView, outcomes: Seq<OutcomeView>)
    ensures
        ({
            let begun = BootView::begun(window, profile, outcomes);
            &&& begun.seed_only <==> exists|i: int|
                0 <= i < outcomes.len() && (#[trigger] outcomes[i]).records > 0 && (outcomes[i].id == "boot-kernel"@
                    || outcomes[i].id == "boot-dmesg"@)
            &&& begun.through_logcat == profile.has("kernel"@)
            &&& begun.polls == 0 && begun.records == 0 && !begun.booted && begun.note is None
            &&& begun.skip == Set::<u64>::empty()
            &&& begun.window == window
        }),
{
    if exists|i: int|
        0 <= i < outcomes.len() && (#[trigger] outcomes[i]).records > 0 && (outcomes[i].id == "boot-kernel"@
            || outcomes[i].id == "boot-dmesg"@) {
        let i = choose|i: int|
            0 <= i < outcomes.len() && (#[trigger] outcomes[i]).records > 0 && (outcomes[i].id == "boot-kernel"@
                || outcomes[i].id == "boot-dmesg"@);
        assert(reads_kernel_ring(outcomes[i].id));
    }
}

/// A finished collection shows its failure, and is stopped without one.
pub proof fn law_how_a_collection_settles(report: ReportView, reason: Seq<char>)
    ensures
        report.failure == Some(reason) ==> settled(report) == StatusView::Failed(reason),
        report.failure is None ==> settled(report) == StatusView::Stopped,
{
}

/// A window and an interval are taken as they were asked for, as far as they are within
/// bounds: a quarter of an hour at most, and half a second at least. Unasked, the window is
/// two minutes and the interval two seconds.
pub proof fn law_windows_are_as_asked(duration: u64, interval: u64, any: Option<u64>)
    ensures
        duration <= 900_000 ==> Window::of(Some(duration), any).window_ms == duration,
        duration > 900_000 ==> Window::of(Some(duration), any).window_ms == 900_000,
        interval >= 500 ==> Window::of(any, Some(interval)).interval_ms == interval,
        interval < 500 ==> Window::of(any, Some(interval)).interval_ms == 500,
        Window::of(None, any).window_ms == 120_000,
        Window::of(any, None).interval_ms == 2_000,
{
}

/// There are as many polls as whole intervals in the window, and one at least.
pub proof fn law_how_many_polls(window: Window)
    requires
        window.interval_ms > 0,
    ensures
        window.polls() >= 1,
        window.interval_ms <= window.window_ms && window.window_ms / window.interval_ms <= u32::MAX ==> {
            &&& window.polls() * window.interval_ms <= window.window_ms
            &&& window.window_ms < (window.polls() + 1) * window.interval_ms
        },
        window.window_ms < window.interval_ms ==> window.polls() == 1,
{
    let w = window.window_ms as int;
    let n = window.interval_ms as int;
    vstd::arithmetic::div_mod::lemma_fundamental_div_mod(w, n);
    vstd::arithmetic::div_mod::lemma_mod_bound(w, n);
    let q = w / n;
    assert(q * n == n * q) by (nonlinear_arith);
    assert((q + 1) * n == n * q + n) by (nonlinear_arith);
    if n <= w {
        assert(q >= 1) by (nonlinear_arith)
            requires
                n > 0,
                n <= w,
                w == n * q + w % n,
                w % n < n,
        ;
    } else {
        vstd::arithmetic::div_mod::lemma_basic_div(w, n);
    }
}

/// The ring is polled through logcat where logcat shows it, and else through dmesg; what is
/// reported of the polls says whether they brought anything.
pub proof fn law_what_polls_report(boot: BootView)
    ensures
        boot.through_logcat ==> boot.command() == "logcat -d -v threadtime -b kernel"@,
        !boot.through_logcat ==> boot.command() == "dmesg"@,
        ({
            let outcome = boot.outcome();
            &&& outcome.command == boot.command()
            &&& outcome.status == ProbeStatus::Found <==> boot.records > 0
            &&& outcome.status == ProbeStatus::Empty <==> boot.records == 0
            &&& boot.records <= usize::MAX ==> outcome.records == boot.records
            &&& boot.note is Some ==> outcome.detail == boot.note
            &&& boot.note is None && boot.records > 0 ==> outcome.detail is None
            &&& boot.note is None && boot.records == 0 ==> outcome.detail is Some
            &&& outcome.hint is None && outcome.files.len() == 0
        }),
{
}

/// Only what was found, or is there and empty, is no fault; and a fault has a remedy.
pub proof fn law_which_answers_are_faults(status: ProbeStatus)
    ensures
        status.ok() <==> !(status == ProbeStatus::Missing || status == ProbeStatus::Denied || status
            == ProbeStatus::Restricted || status == ProbeStatus::Failed),
        status.remedy() is None <==> status == ProbeStatus::Found,
{
}

/// A probe of a directory lists it and takes no lines from the list.
pub proof fn law_directories_are_listed(run: Run, i: int)
    requires
        0 <= i < run.candidates().len(),
    ensures
        ({
            let probe = run.candidates()[i];
            probe.dir matches Some(dir) ==> probe.command@ == "ls -1 "@ + dir@ && !probe.ingest
        }),
{
    reveal_strlit("ls -1 ");
    reveal_strlit("/sys/fs/pstore");
    reveal_strlit("/data/tombstones");
    reveal_strlit("/data/system/dropbox");
    reveal_strlit("/data/anr");
    reveal_strlit("ls -1 /sys/fs/pstore");
    reveal_strlit("ls -1 /data/tombstones");
    reveal_strlit("ls -1 /data/system/dropbox");
    reveal_strlit("ls -1 /data/anr");
    assert("ls -1 /sys/fs/pstore"@ =~= "ls -1 "@ + "/sys/fs/pstore"@);
    assert("ls -1 /data/tombstones"@ =~= "ls -1 "@ + "/data/tombstones"@);
    assert("ls -1 /data/system/dropbox"@ =~= "ls -1 "@ + "/data/system/dropbox"@);
    assert("ls -1 /data/anr"@ =~= "ls -1 "@ + "/data/anr"@);
}

/// The files of a listed directory are read back, three at most; those of a directory that
/// cannot be listed only where they are known; and without a directory none is.
pub proof fn law_which_files_follow(probe: Probe, status: ProbeStatus, stdout: Seq<char>)
    ensures
        ({
            let names = RunView::names_of(probe, status, stdout);
            &&& names.len() <= 3
            &&& probe.dir is None ==> names.len() == 0
            &&& probe.dir is Some && status == ProbeStatus::Found ==> names == worth_reading(stdout, 3)
            &&& probe.dir is Some && status != ProbeStatus::Found && (probe.id@ == "boot-pstore"@ || probe.id@
                == "recovery-pstore"@) ==> names == views(PSTORE_FILES@).take(3)
            &&& probe.dir is Some && status != ProbeStatus::Found && probe.id@ != "boot-pstore"@ && probe.id@
                != "recovery-pstore"@ ==> names.len() == 0
        }),
{
}

/// Each file that is read adds its name and its records; one that cannot be read leaves
/// its reason.
pub proof fn law_files_are_counted(run: RunView, n: nat, status: ProbeStatus, reason: Seq<char>)
    requires
        run.next < run.names.len(),
        run.records + n <= usize::MAX,
    ensures
        ({
            let name = run.names[run.next as int];
            let read = run.with_file(n);
            let refused = run.with_fault(status);
            let lost = run.with_error(reason);
            &&& read.records == run.records + n && read.files == run.files.push(name) && read.detail == run.detail
            &&& refused.records == run.records && refused.files == run.files.push(name) && refused.detail is Some
            &&& lost.records == run.records && lost.files == run.files && lost.detail == Some(name + ": "@ + reason)
            &&& read.next == run.next + 1 && refused.next == run.next + 1 && lost.next == run.next + 1
            &&& read.status == run.status && refused.status == run.status && lost.status == run.status
        }),
{
}

/// What is kept of a complaint is its first line that says something, without the space
/// around it, and 200 characters of it at most.
pub proof fn law_complaints_are_shortened(before: Seq<char>, said: Seq<char>, after: Seq<char>, rest: Seq<char>)
    requires
        is_gap(before),
        is_gap(after),
        said.len() > 0,
        !is_space(said[0]),
        !is_space(said.last()),
        lacks(said, '\n'),
    ensures
        ({
            let line = before + said + after;
            let kept = if said.len() <= 200 { said } else { said.take(200) };
            &&& stderr_detail(line + seq!['\n'] + rest) == Some(kept)
            &&& stderr_detail(seq!['\n'] + line + seq!['\n'] + rest) == Some(kept)
            &&& stderr_detail(Seq::<char>::empty()) is None
        }),
{
    let line = before + said + after;
    assert(lacks(line, '\n')) by {
        assert forall|i: int| 0 <= i < line.len() implies (#[trigger] line[i]) != '\n' by {
            if i < before.len() {
                assert(line[i] == before[i]);
            } else if i < before.len() + said.len() {
                assert(line[i] == said[i - before.len()]);
            } else {
                assert(line[i] == after[i - before.len() - said.len()]);
            }
        }
    }
    if after.len() > 0 {
        assert(line.last() == after.last());
        assert(after[after.len() - 1] == ' ');
    } else {
        assert(line.last() == said.last());
    }
    law_lines_read_back(line, rest);
    law_trim_reads_back(before, said, after);
    let text = line + seq!['\n'] + rest;
    let all = lines(text);
    assert(all[0] == line);
    law_lines_read_back(seq![], text);
    let deeper = seq!['\n'] + line + seq!['\n'] + rest;
    assert(deeper =~= Seq::<char>::empty() + seq!['\n'] + text);
    let more = lines(deeper);
    assert(more == seq![Seq::<char>::empty()] + all);
    assert(more[0] =~= seq![]);
    lemma_trim_plain(more[0], Class::Space);
    assert(more.skip(1) =~= all);
    reveal_with_fuel(first_text, 3);
}

/// Records of every level but the two lowest are searched for a crash, by what they say in
/// whatever case.
pub proof fn law_what_is_searched(record: RecordView)
    ensures
        record.fields.level == LogLevel::Verbose || record.fields.level == LogLevel::Debug ==> crash_of(record) is None,
        record.fields.level != LogLevel::Verbose && record.fields.level != LogLevel::Debug ==> crash_of(record)
            == crash_kind(lowercase(record_text(record))),
{
}

/// A blank line is no record and takes no number; any other takes one.
pub proof fn law_blank_lines_are_no_records(i: IngestView, s: StateView, line: Seq<char>, now: u64)
    ensures
        is_gap(line) ==> ingest_line(i, s, line, now) == (i, s, false),
        (exists|k: int| 0 <= k < line.len() && !is_space(#[trigger] line[k])) ==> ingest_line(i, s, line, now).1.seq
            == next_number(s.seq),
{
    if is_gap(line) {
        assert(line + Seq::<char>::empty() + Seq::<char>::empty() =~= line);
        law_trim_reads_back(line, seq![], seq![]);
    }
    crate::source::lemma_blank(line);
}

/// A name that is too long, or holds what no name of a buffer holds, is no buffer's.
pub proof fn law_what_is_no_buffer(before: Seq<Seq<char>>, gap: Seq<char>, name: Seq<char>, rest: Seq<char>, i: int)
    requires
        is_gap(gap),
        crate::text::laws::is_solid(name),
        lacks(name, ':'),
        name.len() > 16 || (0 <= i < name.len() && !is_buffer_char(name[i])),
    ensures
        buffers_in(before.push(gap + name + seq![':'] + rest)) == buffers_in(before),
{
    let head = gap + name;
    let line = gap + name + seq![':'] + rest;
    assert(lacks(head, ':')) by {
        assert forall|k: int| 0 <= k < head.len() implies (#[trigger] head[k]) != ':' by {
            if k < gap.len() {
                assert(head[k] == gap[k]);
            } else {
                assert(head[k] == name[k - gap.len()]);
            }
        }
    }
    assert(line =~= head + seq![':'] + rest);
    law_split_once_reads_back(head, ':', rest);
    law_trim_reads_back(gap, name, seq![]);
    assert(gap + name + seq![] =~= head);
    assert(before.push(line).drop_last() =~= before);
    if all_in(name, Class::BufferChar) && name.len() <= 16 {
        assert(Class::BufferChar.has(name[i]));
    }
}

/// A release that does not begin with two numbers is not known.
pub proof fn law_what_is_no_release(word: Seq<char>, tail: Seq<char>)
    requires
        word.len() > 0,
        forall|i: int| 0 <= i < word.len() ==> 'a' <= #[trigger] word[i] <= 'z',
        lacks(tail, '\n'),
        tail.len() > 0 ==> !is_space(tail.last()),
    ensures
        kernel_version(word + seq!['.'] + tail) is None,
        kernel_version(Seq::<char>::empty()) is None,
{
    let line = word + seq!['.'] + tail;
    assert(lacks(line, '\n')) by {
        assert forall|i: int| 0 <= i < line.len() implies (#[trigger] line[i]) != '\n' by {
            if i < word.len() {
                assert(line[i] == word[i]);
            } else if i > word.len() {
                assert(line[i] == tail[i - word.len() - 1]);
            }
        }
    }
    law_lines_read_back(line, seq![]);
    assert(line[0] == word[0]);
    assert(line.last() == if tail.len() > 0 { tail.last() } else { '.' });
    lemma_trim_plain(line, Class::Space);
    assert(lines(line)[0] == line);
    reveal_with_fuel(first_text, 2);
    assert(first_text(lines(line)) == Some(line));
    let k = Class::ReleaseSep;
    assert forall|i: int| 0 <= i < word.len() implies k.has(#[trigger] line[i]) == false by {
        assert(line[i] == word[i]);
    }
    assert(line[word.len() as int] == '.');
    lemma_span_is(line, k, false, word.len() as int);
    assert(line.take(word.len() as int) =~= word);
    assert(split(line, k)[0] == word);
    assert(!Class::Digit.has(word[0]));
    assert(!all_in(word, Class::Digit));
}

} // verus!
