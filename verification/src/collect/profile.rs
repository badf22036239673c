//! What a particular device can actually give.
//!
//! Kernels up to 3.4 kept the log of the previous boot in `/proc/last_kmsg`; later
//! ones keep it under `/sys/fs/pstore`, and `/proc/last_kmsg` is gone. A ROM may
//! lack a logcat buffer altogether. Asking first turns a failed probe into a piece
//! of information.

use vstd::prelude::*;
use crate::error::Result;
use crate::executor::{stdout_of, ExecOutput};
use crate::text::chars::{
    chars_of, clone_opt, clone_strings, concat2, concat3, has_string, lemma_views_push, opt_view, push_text,
    string_of, str_eq, views,
};
use crate::text::class::Class;
use crate::text::number::{dec, parse_unsigned, u64_text, unsigned_of};
use crate::text::search::{all_in, all_of, contains, contains_word, span, span_of, take, trim, trim_of};
use crate::text::split::{join, join_strings, lines, lines_of, split, split_on, split_once, split_once_on};

verus! {

/// Where the previous boot's kernel log lives, by kernel generation.
#[derive(Debug, Clone, Copy, PartialEq, Eq, Structural)]
pub enum KernelEra {
    /// Up to 3.4: `/proc/last_kmsg`.
    LegacyLastKmsg,
    /// From 3.5 on: pstore under `/sys/fs/pstore`.
    Pstore,
    /// Not known: read both, modern first.
    Unknown,
}

impl KernelEra {
    pub open spec fn label_text(self) -> Seq<char> {
        match self {
            KernelEra::LegacyLastKmsg => "≤3.4 内核：/proc/last_kmsg"@,
            KernelEra::Pstore => "≥3.5 内核：pstore/ramoops（/sys/fs/pstore）"@,
            KernelEra::Unknown => "内核版本未知：两条路径都试"@,
        }
    }

    /// Label for the report.
    pub fn label(self) -> (r: &'static str)
        ensures
            r@ == self.label_text(),
    {
        match self {
            KernelEra::LegacyLastKmsg => "≤3.4 内核：/proc/last_kmsg",
            KernelEra::Pstore => "≥3.5 内核：pstore/ramoops（/sys/fs/pstore）",
            KernelEra::Unknown => "内核版本未知：两条路径都试",
        }
    }

    /// Whether `/proc/last_kmsg` is worth reading.
    pub fn reads_last_kmsg(self) -> (r: bool)
        ensures
            r == (self != KernelEra::Pstore),
    {
        self != KernelEra::Pstore
    }

    /// Whether the pstore directory is worth reading.
    pub fn reads_pstore(self) -> (r: bool)
        ensures
            r == (self != KernelEra::LegacyLastKmsg),
    {
        self != KernelEra::LegacyLastKmsg
    }
}

/// Asks for the kernel release.
pub const KERNEL_COMMAND: &'static str = "uname -r";

/// Lists each logcat buffer with its ring size.
pub const BUFFERS_COMMAND: &'static str = "logcat -g";

/// What the device told about itself.
#[derive(Debug, PartialEq, Eq)]
pub struct DeviceProfile {
    /// Raw `uname -r`, when it answered.
    pub kernel_raw: Option<String>,
    /// Major and minor version.
    pub kernel: Option<(u32, u32)>,
    /// Which storage generation the kernel belongs to.
    pub era: KernelEra,
    /// logcat buffers that the ROM has.
    pub logcat_buffers: Vec<String>,
    /// One line per conclusion.
    pub notes: Vec<String>,
}

#[verifier::ext_equal]
pub struct ProfileView {
    pub kernel_raw: Option<Seq<char>>,
    pub kernel: Option<(u32, u32)>,
    pub era: KernelEra,
    pub logcat_buffers: Seq<Seq<char>>,
    pub notes: Seq<Seq<char>>,
}

impl View for DeviceProfile {
    type V = ProfileView;

    open spec fn view(&self) -> ProfileView {
        ProfileView {
            kernel_raw: opt_view(self.kernel_raw),
            kernel: self.kernel,
            era: self.era,
            logcat_buffers: views(self.logcat_buffers@),
            notes: views(self.notes@),
        }
    }
}

impl Clone for DeviceProfile {
    fn clone(&self) -> (r: Self)
        ensures
            r@ == self@,
    {
        DeviceProfile {
            kernel_raw: clone_opt(&self.kernel_raw),
            kernel: self.kernel,
            era: self.era,
            logcat_buffers: clone_strings(&self.logcat_buffers),
            notes: clone_strings(&self.notes),
        }
    }
}

impl ProfileView {
    /// The device has the buffer. An unknown list has the standard ones: only a
    /// known list may exclude a buffer.
    pub open spec fn has(self, name: Seq<char>) -> bool {
        if self.logcat_buffers.len() == 0 {
            name == "main"@ || name == "system"@ || name == "crash"@
        } else {
            self.logcat_buffers.contains(name)
        }
    }
}

impl DeviceProfile {
    /// A profile of a device that answered nothing.
    pub fn unknown(note: &str) -> (r: Self)
        ensures
            r@ == (ProfileView {
                kernel_raw: None,
                kernel: None,
                era: KernelEra::Unknown,
                logcat_buffers: seq![],
                notes: seq![note@],
            }),
    {
        let r: DeviceProfile = DeviceProfile {
            kernel_raw: None,
            kernel: None,
            era: KernelEra::Unknown,
            logcat_buffers: Vec::new(),
            notes: vec![note.to_owned()],
        };
        assert(r@.logcat_buffers =~= seq![]);
        assert(r@.notes =~= seq![note@]);
        r
    }

    /// Whether the device has a given logcat buffer.
    pub fn has_buffer(&self, name: &str) -> (r: bool)
        ensures
            r == self@.has(name@),
    {
        assert(views(self.logcat_buffers@).len() == self.logcat_buffers@.len());
        if self.logcat_buffers.len() == 0 {
            str_eq(name, "main") || str_eq(name, "system") || str_eq(name, "crash")
        } else {
            has_string(&self.logcat_buffers, name)
        }
    }

    /// Human summary of the buffer list.
    pub fn buffers_label(&self) -> (r: String)
        ensures
            r@ == if self@.logcat_buffers.len() == 0 {
                "未知（logcat -g 无输出）"@
            } else {
                join(self@.logcat_buffers, " / "@)
            },
    {
        assert(views(self.logcat_buffers@).len() == self.logcat_buffers@.len());
        if self.logcat_buffers.len() == 0 {
            "未知（logcat -g 无输出）".to_owned()
        } else {
            join_strings(&self.logcat_buffers, " / ")
        }
    }
}

/// The first line that is not blank, without the space around it.
pub open spec fn first_text(all: Seq<Seq<char>>) -> Option<Seq<char>>
    decreases all.len(),
{
    if all.len() == 0 {
        None
    } else if trim(all[0], Class::Space).len() > 0 {
        Some(trim(all[0], Class::Space))
    } else {
        first_text(all.skip(1))
    }
}

/// The executable form of [`first_text`], over the lines of a text.
pub(crate) fn first_text_of(text: &str) -> (r: Option<String>)
    ensures
        opt_view(r) == first_text(lines(text@)),
{
    let cs: Vec<char> = chars_of(text);
    let all: Vec<&[char]> = lines_of(cs.as_slice());
    let ghost every = views(all@);
    let mut i: usize = 0;
    assert(every.skip(0) =~= every);
    while i < all.len()
        invariant
            i <= all@.len(),
            every == views(all@),
            every == lines(text@),
            first_text(every) == first_text(every.skip(i as int)),
        decreases all@.len() - i,
    {
        assert(every.skip(i as int)[0] == all@[i as int]@);
        assert(every.skip(i as int).skip(1) =~= every.skip(i as int + 1));
        let line: &[char] = trim_of(all[i], Class::Space);
        if line.len() > 0 {
            return Some(string_of(line));
        }
        i += 1;
    }
    None
}

/// The version that a release line shows: the number before the first separator,
/// and the digits that the next part begins with.
pub open spec fn release_version(line: Seq<char>) -> Option<(u32, u32)> {
    let parts = split(line, Class::ReleaseSep);
    if parts.len() >= 2 {
        let digits = parts[1].take(span(parts[1], Class::Digit, true));
        match (parse_unsigned(parts[0], u32::MAX as nat), parse_unsigned(digits, u32::MAX as nat)) {
            (Some(major), Some(minor)) => Some((major as u32, minor as u32)),
            _ => None,
        }
    } else {
        None
    }
}

/// The version that the output of `uname -r` shows.
pub open spec fn kernel_version(text: Seq<char>) -> Option<(u32, u32)> {
    match first_text(lines(text)) {
        Some(line) => release_version(line),
        None => None,
    }
}

/// The major and minor version in the output of `uname -r`.
///
/// Releases read like `5.10.302-qgki` or `3.4.0`. What cannot be read is `None`, so
/// that both generations are tried rather than one guessed.
pub fn parse_kernel_release(text: &str) -> (r: Option<(u32, u32)>)
    ensures
        r == kernel_version(text@),
{
    let line: String = match first_text_of(text) {
        Some(line) => line,
        None => return None,
    };
    let cs: Vec<char> = chars_of(line.as_str());
    let parts: Vec<&[char]> = split_on(cs.as_slice(), Class::ReleaseSep);
    assert(views(parts@).len() == parts@.len());
    if parts.len() < 2 {
        return None;
    }
    assert(views(parts@)[0] == parts@[0]@ && views(parts@)[1] == parts@[1]@);
    let digits: &[char] = take(parts[1], span_of(parts[1], Class::Digit, true));
    match (unsigned_of(parts[0], u32::MAX as u64), unsigned_of(digits, u32::MAX as u64)) {
        (Some(major), Some(minor)) => Some((major as u32, minor as u32)),
        _ => None,
    }
}

/// The storage generation of a kernel version.
pub open spec fn era(version: Option<(u32, u32)>) -> KernelEra {
    match version {
        Some((major, minor)) => if major > 3 || (major == 3 && minor > 4) {
            KernelEra::Pstore
        } else {
            KernelEra::LegacyLastKmsg
        },
        None => KernelEra::Unknown,
    }
}

/// Maps a kernel version onto its storage generation.
pub fn era_of(version: Option<(u32, u32)>) -> (r: KernelEra)
    ensures
        r == era(version),
{
    match version {
        Some((major, minor)) => {
            if major > 3 || (major == 3 && minor > 4) {
                KernelEra::Pstore
            } else {
                KernelEra::LegacyLastKmsg
            }
        }
        None => KernelEra::Unknown,
    }
}

/// A known kernel has exactly one place for the log of the previous boot; for an
/// unknown one both are read.
pub proof fn law_one_place_per_known_kernel(version: Option<(u32, u32)>)
    ensures
        version is Some ==> (era(version) == KernelEra::Pstore) != (era(version) == KernelEra::LegacyLastKmsg),
        version is None <==> era(version) == KernelEra::Unknown,
{
}

/// The name of a buffer.
pub open spec fn buffer_name(name: Seq<char>) -> bool {
    0 < name.len() <= 16 && all_in(name, Class::BufferChar)
}

/// The buffers among lines, in order and each once. A line names one before its
/// first colon where it speaks of a ring buffer after it.
pub open spec fn buffers_in(all: Seq<Seq<char>>) -> Seq<Seq<char>>
    decreases all.len(),
{
    if all.len() == 0 {
        seq![]
    } else {
        let before = buffers_in(all.drop_last());
        match split_once(all.last(), Class::One(':')) {
            Some((head, rest)) => {
                let name = trim(head, Class::Space);
                if contains(rest, "ring buffer"@) && buffer_name(name) && !before.contains(name) {
                    before.push(name)
                } else {
                    before
                }
            },
            None => before,
        }
    }
}

/// The buffer names in the output of `logcat -g`.
///
/// Error lines and banners speak of no ring buffer, so a failed query invents none.
pub fn parse_logcat_buffers(text: &str) -> (r: Vec<String>)
    ensures
        views(r@) == buffers_in(lines(text@)),
{
    let cs: Vec<char> = chars_of(text);
    let all: Vec<&[char]> = lines_of(cs.as_slice());
    let ghost every = views(all@);
    let mut r: Vec<String> = Vec::new();
    assert(views(r@) =~= seq![]);
    let mut i: usize = 0;
    while i < all.len()
        invariant
            i <= all@.len(),
            every == views(all@),
            views(r@) == buffers_in(every.take(i as int)),
        decreases all@.len() - i,
    {
        assert(every.take(i as int + 1).drop_last() =~= every.take(i as int));
        assert(every.take(i as int + 1).last() == all@[i as int]@);
        if let Some((head, rest)) = split_once_on(all[i], Class::One(':')) {
            let name: &[char] = trim_of(head, Class::Space);
            if contains_word(rest, "ring buffer") && name.len() > 0 && name.len() <= 16 && all_of(
                name,
                Class::BufferChar,
            ) {
                let text: String = string_of(name);
                if !has_string(&r, text.as_str()) {
                    proof {
                        lemma_views_push(r@, text);
                    }
                    r.push(text);
                }
            }
        }
        i += 1;
    }
    assert(every.take(i as int) =~= every);
    r
}

/// The conclusions that are put into the report.
pub open spec fn profile_notes(
    kernel_raw: Option<Seq<char>>,
    kernel: Option<(u32, u32)>,
    buffers: Seq<Seq<char>>,
) -> Seq<Seq<char>> {
    let first = match kernel {
        Some((major, minor)) => "内核 "@ + (match kernel_raw {
            Some(raw) => raw,
            None => "?"@,
        }) + "（"@ + dec(major as nat) + "."@ + dec(minor as nat) + "）："@ + era(kernel).label_text(),
        None => "无法读取内核版本（uname -r 无输出）：将同时尝试 pstore 与 /proc/last_kmsg"@,
    };
    let second = if buffers.len() == 0 {
        "logcat -g 没有列出缓冲区：按标准缓冲区探测"@
    } else {
        "可用 logcat 缓冲区："@ + join(buffers, " / "@)
    };
    seq![first, second]
}

/// What the two answers show; an answer that did not come shows nothing.
pub open spec fn profile_of(uname: Option<Seq<char>>, buffers: Option<Seq<char>>) -> ProfileView {
    let kernel_raw = match uname {
        Some(stdout) => if trim(stdout, Class::Space).len() > 0 {
            Some(trim(stdout, Class::Space))
        } else {
            None
        },
        None => None,
    };
    let kernel = match kernel_raw {
        Some(raw) => kernel_version(raw),
        None => None,
    };
    let logcat_buffers = match buffers {
        Some(stdout) => buffers_in(lines(stdout)),
        None => seq![],
    };
    ProfileView {
        kernel_raw,
        kernel,
        era: era(kernel),
        logcat_buffers,
        notes: profile_notes(kernel_raw, kernel, logcat_buffers),
    }
}

fn notes_of(kernel_raw: &Option<String>, kernel: Option<(u32, u32)>, buffers: &Vec<String>) -> (r: Vec<String>)
    ensures
        views(r@) == profile_notes(opt_view(*kernel_raw), kernel, views(buffers@)),
{
    let first: String = match kernel {
        Some((major, minor)) => {
            let raw: &str = match kernel_raw {
                Some(raw) => raw.as_str(),
                None => "?",
            };
            let major_text: String = u64_text(major as u64);
            let minor_text: String = u64_text(minor as u64);
            let mut text: String = concat3("内核 ", raw, "（");
            push_text(&mut text, major_text.as_str());
            push_text(&mut text, ".");
            push_text(&mut text, minor_text.as_str());
            push_text(&mut text, "）：");
            push_text(&mut text, era_of(kernel).label());
            text
        }
        None => "无法读取内核版本（uname -r 无输出）：将同时尝试 pstore 与 /proc/last_kmsg".to_owned(),
    };
    assert(views(buffers@).len() == buffers@.len());
    let second: String = if buffers.len() == 0 {
        "logcat -g 没有列出缓冲区：按标准缓冲区探测".to_owned()
    } else {
        let list: String = join_strings(buffers, " / ");
        concat2("可用 logcat 缓冲区：", list.as_str())
    };
    let r: Vec<String> = vec![first, second];
    assert(views(r@) =~= profile_notes(opt_view(*kernel_raw), kernel, views(buffers@)));
    r
}

/// Builds the profile of a device from its answers to [`KERNEL_COMMAND`] and
/// [`BUFFERS_COMMAND`].
///
/// Never fails: a device that cannot answer is one of which nothing is known.
pub fn detect(uname: Result<ExecOutput>, buffers: Result<ExecOutput>) -> (r: DeviceProfile)
    ensures
        r@ == profile_of(stdout_of(uname), stdout_of(buffers)),
{
    let kernel_raw: Option<String> = match uname {
        Ok(output) => {
            let cs: Vec<char> = chars_of(output.stdout.as_str());
            let text: &[char] = trim_of(cs.as_slice(), Class::Space);
            if text.len() > 0 {
                Some(string_of(text))
            } else {
                None
            }
        }
        Err(_) => None,
    };
    let kernel: Option<(u32, u32)> = match &kernel_raw {
        Some(raw) => parse_kernel_release(raw.as_str()),
        None => None,
    };
    let logcat_buffers: Vec<String> = match buffers {
        Ok(output) => parse_logcat_buffers(output.stdout.as_str()),
        Err(_) => {
            let none: Vec<String> = Vec::new();
            assert(views(none@) =~= seq![]);
            none
        }
    };
    let notes: Vec<String> = notes_of(&kernel_raw, kernel, &logcat_buffers);
    DeviceProfile { kernel_raw, kernel, era: era_of(kernel), logcat_buffers, notes }
}

} // verus!
