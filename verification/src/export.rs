//! Writing collected records out to a file.
//!
//! Where the file lands, what it may be called, and which bytes it holds. A CSV
//! begins with a byte-order mark, so that spreadsheets read Chinese.

use vstd::prelude::*;
use vstd::string::*;
use crate::error::{DroidLogError, ErrorView, Result};
use crate::executor::{CommandPlan, PlanView};
use crate::text::chars::{chars_of, concat2, concat3, lemma_views_push, push_text, str_eq, string_of, views};
use crate::text::class::Class;
use crate::text::search::{
    all_in, ends_with, ends_with_word, lemma_span_is, lemma_tail_span_is, lemma_trim_edges, lemma_trim_plain, skip,
    tail_span, tail_span_of, take, trim, trim_of, trim_start, trim_start_of,
};

verus! {

/// Longest file name accepted, before the format's extension.
pub const MAX_STEM: usize = 96;

/// Where exports land inside the user's download directory.
pub const EXPORT_FOLDER: &'static str = "Droidlog";

/// The formats on offer. A suggested name is data, not a decision about file types:
/// the extension is the format's.
#[derive(Debug, Clone, Copy, PartialEq, Eq, Structural)]
pub enum ExportFormat {
    /// Human-readable log lines.
    Log,
    /// Comma separated, UTF-8 with a byte-order mark.
    Csv,
    /// JSON.
    Json,
}

impl ExportFormat {
    pub open spec fn extension_text(self) -> Seq<char> {
        match self {
            ExportFormat::Log => "log"@,
            ExportFormat::Csv => "csv"@,
            ExportFormat::Json => "json"@,
        }
    }

    /// The bytes that a file begins with.
    pub open spec fn mark(self) -> Seq<u8> {
        if self == ExportFormat::Csv {
            seq![0xEFu8, 0xBBu8, 0xBFu8]
        } else {
            seq![]
        }
    }

    /// File extension without the dot.
    pub fn extension(self) -> (r: &'static str)
        ensures
            r@ == self.extension_text(),
    {
        match self {
            ExportFormat::Log => "log",
            ExportFormat::Csv => "csv",
            ExportFormat::Json => "json",
        }
    }

    /// Parses the name of a format.
    pub fn from_name(name: &str) -> (r: Option<Self>)
        ensures
            match r {
                Some(format) => format.extension_text() == name@,
                None => name@ != "log"@ && name@ != "csv"@ && name@ != "json"@,
            },
    {
        if str_eq(name, "log") {
            Some(ExportFormat::Log)
        } else if str_eq(name, "csv") {
            Some(ExportFormat::Csv)
        } else if str_eq(name, "json") {
            Some(ExportFormat::Json)
        } else {
            None
        }
    }

    /// Whether the file needs a byte-order mark.
    pub fn wants_bom(self) -> (r: bool)
        ensures
            r == (self == ExportFormat::Csv),
            r == (self.mark().len() > 0),
    {
        self == ExportFormat::Csv
    }
}

/// What was written.
#[derive(Debug)]
pub struct ExportOutcome {
    /// Absolute path of the written file.
    pub path: String,
    /// Bytes written, including any byte-order mark.
    pub bytes: usize,
    /// Format used.
    pub format: ExportFormat,
}

/// The components of the export directory: `<downloads>/Droidlog`.
pub open spec fn export_components(downloads: Option<Seq<Seq<char>>>) -> Seq<Seq<char>> {
    match downloads {
        Some(dir) => dir.push(EXPORT_FOLDER@),
        None => seq![EXPORT_FOLDER@],
    }
}

/// The components of the directory that exports are written to, given those of the
/// download directory.
///
/// Without a download directory it is relative: refusing to export is worse than
/// exporting somewhere obvious.
pub fn export_dir(downloads: Option<Vec<String>>) -> (r: Vec<String>)
    ensures
        views(r@) == export_components(
            match downloads {
                Some(dir) => Some(views(dir@)),
                None => None,
            },
        ),
{
    let folder: String = EXPORT_FOLDER.to_owned();
    match downloads {
        Some(dir) => {
            let mut r: Vec<String> = dir;
            proof {
                lemma_views_push(r@, folder);
            }
            r.push(folder);
            r
        }
        None => {
            let r: Vec<String> = vec![folder];
            assert(views(r@) =~= seq![EXPORT_FOLDER@]);
            r
        }
    }
}

/// The characters of the class, in order.
pub open spec fn keep_in(s: Seq<char>, k: Class) -> Seq<char>
    decreases s.len(),
{
    if s.len() == 0 {
        seq![]
    } else if k.has(s.last()) {
        keep_in(s.drop_last(), k).push(s.last())
    } else {
        keep_in(s.drop_last(), k)
    }
}

/// What stands behind the last path separator, without the space around it.
pub open spec fn last_component(requested: Seq<char>) -> Seq<char> {
    trim(requested.skip(requested.len() - tail_span(requested, Class::PathSep, false)), Class::Space)
}

/// What stands before the last point; all of it where there is none.
pub open spec fn before_extension(s: Seq<char>) -> Seq<char> {
    let n = tail_span(s, Class::One('.'), false);
    if n < s.len() {
        s.take(s.len() - n - 1)
    } else {
        s
    }
}

/// The first [`MAX_STEM`] characters.
pub open spec fn capped(s: Seq<char>) -> Seq<char> {
    if s.len() > MAX_STEM {
        s.take(MAX_STEM as int)
    } else {
        s
    }
}

/// The safe part of a suggested name, without an extension.
pub open spec fn safe_stem(requested: Seq<char>) -> Seq<char> {
    let bare = trim_start(before_extension(last_component(requested)), Class::One('.'));
    let stem = trim(capped(keep_in(bare, Class::FileChar)), Class::FileEdge);
    if stem.len() == 0 {
        "droidlog"@
    } else {
        stem
    }
}

/// The name that is safe to create.
pub open spec fn safe_name(requested: Seq<char>, format: ExportFormat) -> Seq<char> {
    safe_stem(requested) + "."@ + format.extension_text()
}

fn kept_chars(cs: &[char], k: Class) -> (r: Vec<char>)
    ensures
        r@ == keep_in(cs@, k),
{
    let mut r: Vec<char> = Vec::new();
    let mut i: usize = 0;
    while i < cs.len()
        invariant
            i <= cs@.len(),
            r@ == keep_in(cs@.take(i as int), k),
        decreases cs@.len() - i,
    {
        assert(cs@.take(i as int + 1).drop_last() =~= cs@.take(i as int));
        if k.holds(cs[i]) {
            r.push(cs[i]);
        }
        i += 1;
    }
    assert(cs@.take(i as int) =~= cs@);
    r
}

/// Turns whatever was suggested into a name that is safe to create.
///
/// Only the last path component counts. Everything outside `[A-Za-z0-9._-]` is
/// dropped, leading dots are removed, the stem is capped, and the extension is that
/// of the format. An empty result falls back to a fixed name.
pub fn sanitize_file_name(requested: &str, format: ExportFormat) -> (r: String)
    ensures
        r@ == safe_name(requested@, format),
{
    let cs: Vec<char> = chars_of(requested);
    let text: &[char] = cs.as_slice();
    let tail: usize = tail_span_of(text, Class::PathSep, false);
    let last: &[char] = trim_of(skip(text, text.len() - tail), Class::Space);
    let behind: usize = tail_span_of(last, Class::One('.'), false);
    let stem: &[char] = if behind < last.len() {
        take(last, last.len() - behind - 1)
    } else {
        last
    };
    let kept: Vec<char> = kept_chars(trim_start_of(stem, Class::One('.')), Class::FileChar);
    let cut: &[char] = if kept.len() > MAX_STEM {
        take(kept.as_slice(), MAX_STEM)
    } else {
        kept.as_slice()
    };
    let safe: &[char] = trim_of(cut, Class::FileEdge);
    if safe.len() == 0 {
        concat3("droidlog", ".", format.extension())
    } else {
        concat3(string_of(safe).as_str(), ".", format.extension())
    }
}

/// Why a name does not fit a format, if it does not.
pub open spec fn name_fault(file_name: Seq<char>, format: ExportFormat) -> Option<Seq<char>> {
    if ends_with(file_name, "."@ + format.extension_text()) {
        None
    } else {
        Some("导出文件名与格式不符："@ + file_name + " 不是 ."@ + format.extension_text())
    }
}

/// The bytes of an export, for a name that fits the format.
pub fn export_bytes(file_name: &str, content: &str, format: ExportFormat) -> (r: Result<Vec<u8>>)
    ensures
        match r {
            Ok(bytes) => name_fault(file_name@, format) is None && bytes@ == format.mark() + content.spec_bytes(),
            Err(error) => name_fault(file_name@, format) matches Some(reason) && error@
                == ErrorView::InvalidInput(reason),
        },
{
    let cs: Vec<char> = chars_of(file_name);
    let suffix: String = concat2(".", format.extension());
    if !ends_with_word(cs.as_slice(), suffix.as_str()) {
        let mut text: String = concat3("导出文件名与格式不符：", file_name, " 不是 .");
        push_text(&mut text, format.extension());
        return Err(DroidLogError::InvalidInput(text));
    }
    let mut bytes: Vec<u8> = Vec::new();
    if format.wants_bom() {
        bytes.push(0xEF);
        bytes.push(0xBB);
        bytes.push(0xBF);
    }
    assert(bytes@ =~= format.mark());
    bytes.extend_from_slice(content.as_bytes());
    Ok(bytes)
}

/// The error for a directory that cannot be created.
pub fn create_failed(dir: &str, cause: &str) -> (r: DroidLogError)
    ensures
        r@ == ErrorView::InvalidInput("无法创建导出目录 "@ + dir@ + "："@ + cause@),
{
    let mut text: String = concat3("无法创建导出目录 ", dir, "：");
    push_text(&mut text, cause);
    DroidLogError::InvalidInput(text)
}

/// The error for a file that cannot be written.
pub fn write_failed(path: &str, cause: &str) -> (r: DroidLogError)
    ensures
        r@ == ErrorView::InvalidInput("无法写入 "@ + path@ + "："@ + cause@),
{
    let mut text: String = concat3("无法写入 ", path, "：");
    push_text(&mut text, cause);
    DroidLogError::InvalidInput(text)
}

/// The error for a file that is not there.
pub fn export_missing(path: &str, cause: &str) -> (r: DroidLogError)
    ensures
        r@ == ErrorView::InvalidInput("导出文件不存在："@ + path@ + "（"@ + cause@ + "）"@),
{
    let mut text: String = concat3("导出文件不存在：", path, "（");
    push_text(&mut text, cause);
    push_text(&mut text, "）");
    DroidLogError::InvalidInput(text)
}

/// The path begins with all components of the directory.
pub open spec fn inside(dir: Seq<Seq<char>>, path: Seq<Seq<char>>) -> bool {
    dir.len() <= path.len() && path.take(dir.len() as int) == dir
}

/// Whether a path sits inside a directory, both by their components.
///
/// Both are expected to be canonical: this keeps an arbitrary path from being handed
/// to another program.
pub fn is_inside(dir: &[String], path: &[String]) -> (r: bool)
    ensures
        r == inside(views(dir@), views(path@)),
{
    assert(views(dir@).len() == dir@.len() && views(path@).len() == path@.len());
    if dir.len() > path.len() {
        return false;
    }
    let ghost head = views(path@).take(dir@.len() as int);
    let mut i: usize = 0;
    while i < dir.len()
        invariant
            i <= dir@.len() <= path@.len(),
            head == views(path@).take(dir@.len() as int),
            forall|j: int| 0 <= j < i ==> head[j] == views(dir@)[j],
        decreases dir@.len() - i,
    {
        assert(head[i as int] == path@[i as int]@ && views(dir@)[i as int] == dir@[i as int]@);
        if !str_eq(dir[i].as_str(), path[i].as_str()) {
            return false;
        }
        i += 1;
    }
    assert(head =~= views(dir@));
    true
}

/// The plan that opens the file manager with a file selected, for a file inside the
/// export directory. `shown` is how the path of the file reads.
pub fn reveal_plan(dir: &[String], path: &[String], shown: &str) -> (r: Result<CommandPlan>)
    ensures
        match r {
            Ok(plan) => inside(views(dir@), views(path@)) && plan@ == (PlanView {
                program: "explorer.exe"@,
                args: seq!["/select,"@ + shown@],
            }),
            Err(error) => !inside(views(dir@), views(path@)) && error@ == ErrorView::InvalidInput(
                "只能打开导出目录内的文件："@ + shown@,
            ),
        },
{
    if !is_inside(dir, path) {
        return Err(DroidLogError::InvalidInput(concat2("只能打开导出目录内的文件：", shown)));
    }
    // One argument keeps the comma and any spaces of the path together.
    let plan: CommandPlan = CommandPlan {
        program: "explorer.exe".to_owned(),
        args: vec![concat2("/select,", shown)],
    };
    assert(plan@.args =~= seq!["/select,"@ + shown@]);
    Ok(plan)
}

proof fn lemma_keep_in(s: Seq<char>, k: Class)
    ensures
        all_in(keep_in(s, k), k),
        all_in(s, k) ==> keep_in(s, k) == s,
    decreases s.len(),
{
    if s.len() > 0 {
        let init = s.drop_last();
        lemma_keep_in(init, k);
        let r = keep_in(s, k);
        assert forall|i: int| 0 <= i < r.len() implies k.has(#[trigger] r[i]) by {
            if i < keep_in(init, k).len() {
                assert(k.has(keep_in(init, k)[i]));
            }
        }
        if all_in(s, k) {
            assert(k.has(s[s.len() - 1]));
            assert forall|i: int| 0 <= i < init.len() implies k.has(#[trigger] init[i]) by {
                assert(k.has(s[i]));
            }
            assert(init.push(s.last()) =~= s);
        }
    } else {
        assert(keep_in(s, k) =~= s);
    }
}

/// The stem of a safe name is not empty, is no longer than allowed, holds only
/// letters, digits, points, underscores and dashes, and neither begins nor ends with
/// one of the last three. So the file is not hidden and lies in no other directory.
pub proof fn law_safe_stems(requested: Seq<char>)
    ensures
        ({
            let stem = safe_stem(requested);
            &&& 0 < stem.len() <= MAX_STEM
            &&& all_in(stem, Class::FileChar)
            &&& !Class::FileEdge.has(stem[0]) && !Class::FileEdge.has(stem.last())
        }),
{
    let bare = trim_start(before_extension(last_component(requested)), Class::One('.'));
    let kept = keep_in(bare, Class::FileChar);
    lemma_keep_in(bare, Class::FileChar);
    let cut = capped(kept);
    assert forall|i: int| 0 <= i < cut.len() implies Class::FileChar.has(#[trigger] cut[i]) by {
        assert(Class::FileChar.has(kept[i]));
    }
    lemma_trim_edges(cut, Class::FileEdge, Class::FileChar);
    reveal_strlit("droidlog");
    assert(all_in("droidlog"@, Class::FileChar));
}

/// Sanitising a safe name changes nothing.
pub proof fn law_safe_names_are_stable(requested: Seq<char>, format: ExportFormat)
    ensures
        safe_name(safe_name(requested, format), format) == safe_name(requested, format),
{
    law_safe_stems(requested);
    let stem = safe_stem(requested);
    let ext = format.extension_text();
    let name = safe_name(requested, format);
    reveal_strlit("log");
    reveal_strlit("csv");
    reveal_strlit("json");
    reveal_strlit(".");
    assert forall|i: int| 0 <= i < name.len() implies !Class::PathSep.has(#[trigger] name[i])
        && !Class::Space.has(name[i]) by {
        if i < stem.len() {
            assert(Class::FileChar.has(stem[i]));
            assert(name[i] == stem[i]);
        } else if i == stem.len() {
            assert(name[i] == '.');
        } else {
            assert(name[i] == ext[i - stem.len() - 1]);
        }
    }
    lemma_tail_span_is(name, Class::PathSep, false, name.len() as int);
    assert(name.skip(0) =~= name);
    lemma_trim_plain(name, Class::Space);
    assert(last_component(name) == name);
    assert forall|i: int| name.len() - ext.len() <= i < name.len() implies !Class::One('.').has(
        #[trigger] name[i],
    ) by {
        assert(name[i] == ext[i - stem.len() - 1]);
    }
    assert(name[name.len() - ext.len() - 1] == '.');
    lemma_tail_span_is(name, Class::One('.'), false, ext.len() as int);
    assert(before_extension(name) =~= stem);
    assert(!Class::One('.').has(stem[0]));
    lemma_span_is(stem, Class::One('.'), true, 0);
    assert(stem.skip(0) =~= stem);
    lemma_keep_in(stem, Class::FileChar);
    lemma_trim_plain(stem, Class::FileEdge);
}

/// A safe name fits its format.
pub proof fn law_safe_names_fit(requested: Seq<char>, format: ExportFormat)
    ensures
        name_fault(safe_name(requested, format), format) is None,
{
    let name = safe_name(requested, format);
    let suffix = "."@ + format.extension_text();
    assert(name.skip(name.len() - suffix.len()) =~= suffix);
}

/// A character that a file name may hold.
pub open spec fn is_file_char(c: char) -> bool {
    ||| 'a' <= c <= 'z'
    ||| 'A' <= c <= 'Z'
    ||| '0' <= c <= '9'
    ||| c == '.'
    ||| c == '_'
    ||| c == '-'
}

/// A character that a file name may begin and end with.
pub open spec fn is_firm_char(c: char) -> bool {
    ||| 'a' <= c <= 'z'
    ||| 'A' <= c <= 'Z'
    ||| '0' <= c <= '9'
}

/// A name that is already safe is kept: of a path only what is behind the last separator
/// counts, and the extension becomes that of the format.
pub proof fn law_good_names_are_kept(
    dir: Seq<char>,
    separator: char,
    stem: Seq<char>,
    extension: Seq<char>,
    format: ExportFormat,
)
    requires
        separator == '/' || separator == '\\',
        0 < stem.len() <= 96,
        is_firm_char(stem[0]),
        is_firm_char(stem.last()),
        forall|i: int| 0 <= i < stem.len() ==> is_file_char(#[trigger] stem[i]),
        extension.len() > 0,
        forall|i: int| 0 <= i < extension.len() ==> is_firm_char(#[trigger] extension[i]),
    ensures
        safe_name(dir + seq![separator] + stem + seq!['.'] + extension, format) == stem + seq!['.']
            + format.extension_text(),
        safe_name(stem + seq!['.'] + extension, format) == stem + seq!['.'] + format.extension_text(),
{
    let file = stem + seq!['.'] + extension;
    let whole = dir + seq![separator] + stem + seq!['.'] + extension;
    lemma_good_file(stem, extension);
    reveal_strlit(".");
    assert("."@ =~= seq!['.']);
    assert(whole =~= dir + seq![separator] + file);
    assert forall|i: int| whole.len() - file.len() <= i < whole.len() implies Class::PathSep.has(#[trigger] whole[i])
        == false by {
        assert(whole[i] == file[i - dir.len() - 1]);
        assert(!Class::PathSep.has(file[i - dir.len() - 1]));
    }
    assert(whole[whole.len() - file.len() - 1] == separator);
    lemma_tail_span_is(whole, Class::PathSep, false, file.len() as int);
    assert(whole.skip(whole.len() - file.len()) =~= file);
    lemma_tail_span_is(file, Class::PathSep, false, file.len() as int);
    assert(file.skip(0) =~= file);
    lemma_trim_plain(file, Class::Space);
    assert(last_component(whole) == file && last_component(file) == file);
}

proof fn lemma_good_file(stem: Seq<char>, extension: Seq<char>)
    requires
        0 < stem.len() <= 96,
        is_firm_char(stem[0]),
        is_firm_char(stem.last()),
        forall|i: int| 0 <= i < stem.len() ==> is_file_char(#[trigger] stem[i]),
        extension.len() > 0,
        forall|i: int| 0 <= i < extension.len() ==> is_firm_char(#[trigger] extension[i]),
    ensures
        ({
            let file = stem + seq!['.'] + extension;
            &&& forall|i: int| 0 <= i < file.len() ==> !Class::PathSep.has(#[trigger] file[i])
            &&& !Class::Space.has(file[0]) && !Class::Space.has(file.last())
            &&& before_extension(file) == stem
            &&& trim_start(stem, Class::One('.')) == stem
            &&& trim(capped(keep_in(stem, Class::FileChar)), Class::FileEdge) == stem
        }),
{
    let file = stem + seq!['.'] + extension;
    assert forall|i: int| 0 <= i < file.len() implies !Class::PathSep.has(#[trigger] file[i]) by {
        if i < stem.len() {
            assert(file[i] == stem[i]);
            assert(is_file_char(stem[i]));
        } else if i > stem.len() {
            assert(file[i] == extension[i - stem.len() - 1]);
            assert(is_firm_char(extension[i - stem.len() - 1]));
        }
    }
    assert(file[0] == stem[0]);
    assert(file.last() == extension.last());
    assert(is_firm_char(extension[extension.len() - 1]));
    let n = extension.len() as int;
    assert forall|i: int| file.len() - n <= i < file.len() implies Class::One('.').has(#[trigger] file[i]) == false by {
        assert(file[i] == extension[i - stem.len() - 1]);
        assert(is_firm_char(extension[i - stem.len() - 1]));
    }
    assert(file[file.len() - n - 1] == '.');
    lemma_tail_span_is(file, Class::One('.'), false, n);
    assert(file.take(file.len() - n - 1) =~= stem);
    lemma_trim_plain(stem, Class::One('.'));
    assert(all_in(stem, Class::FileChar)) by {
        assert forall|i: int| 0 <= i < stem.len() implies Class::FileChar.has(#[trigger] stem[i]) by {
            assert(is_file_char(stem[i]));
        }
    }
    lemma_keep_in(stem, Class::FileChar);
    lemma_trim_plain(stem, Class::FileEdge);
}

/// Whatever was asked for, the name is made of harmless characters only, names no
/// directory, is no hidden file, and has the extension of its format.
pub proof fn law_names_are_harmless(requested: Seq<char>, format: ExportFormat)
    ensures
        ({
            let stem = safe_stem(requested);
            let name = safe_name(requested, format);
            &&& name == stem + seq!['.'] + match format {
                ExportFormat::Log => seq!['l', 'o', 'g'],
                ExportFormat::Csv => seq!['c', 's', 'v'],
                ExportFormat::Json => seq!['j', 's', 'o', 'n'],
            }
            &&& 0 < stem.len() <= 96
            &&& is_firm_char(stem[0]) && is_firm_char(stem.last())
            &&& forall|i: int| 0 <= i < stem.len() ==> is_file_char(#[trigger] stem[i])
        }),
{
    law_safe_stems(requested);
    let stem = safe_stem(requested);
    reveal_strlit(".");
    reveal_strlit("log");
    reveal_strlit("csv");
    reveal_strlit("json");
    assert("."@ =~= seq!['.']);
    assert("log"@ =~= seq!['l', 'o', 'g']);
    assert("csv"@ =~= seq!['c', 's', 'v']);
    assert("json"@ =~= seq!['j', 's', 'o', 'n']);
    assert forall|i: int| 0 <= i < stem.len() implies is_file_char(#[trigger] stem[i]) by {
        assert(Class::FileChar.has(stem[i]));
    }
    assert(is_file_char(stem[0]) && is_file_char(stem[stem.len() - 1]));
}

/// A file may be shown exactly where its path begins with all of the directory's.
pub proof fn law_only_exports_are_shown(dir: Seq<Seq<char>>, rest: Seq<Seq<char>>, path: Seq<Seq<char>>)
    ensures
        inside(dir, dir + rest),
        inside(dir, path) ==> path == dir + path.skip(dir.len() as int),
        path.len() < dir.len() ==> !inside(dir, path),
{
    assert((dir + rest).take(dir.len() as int) =~= dir);
    if inside(dir, path) {
        assert(path =~= path.take(dir.len() as int) + path.skip(dir.len() as int));
    }
}

/// A file is taken for one of its format by its extension, and only the table gets a byte
/// order mark.
pub proof fn law_extensions_tell_the_format(stem: Seq<char>, format: ExportFormat, other: ExportFormat)
    ensures
        name_fault(stem + "."@ + format.extension_text(), format) is None,
        format != other ==> name_fault(stem + "."@ + format.extension_text(), other) is Some,
        format.mark().len() > 0 <==> format == ExportFormat::Csv,
        ExportFormat::Csv.mark() == seq![0xEFu8, 0xBBu8, 0xBFu8],
{
    reveal_strlit(".");
    reveal_strlit("log");
    reveal_strlit("csv");
    reveal_strlit("json");
    let name = stem + "."@ + format.extension_text();
    let end = "."@ + format.extension_text();
    assert(name.skip(stem.len() as int) =~= end);
    let wrong = "."@ + other.extension_text();
    if format != other && ends_with(name, wrong) {
        let tail = name.skip(name.len() - wrong.len());
        assert(tail.last() == name.last());
        assert(wrong.last() == other.extension_text().last());
        assert(name.last() == format.extension_text().last());
    }
}

} // verus!
