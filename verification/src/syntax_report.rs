use vstd::prelude::*;
use crate::strings::{concat, owned, string_push};

verus! {

broadcast use vstd::string::group_string_axioms;

/// What `dx syntax list` and `dx syntax doctor` report of one language.
pub struct SyntaxLanguageStatus {
    pub language: String,
    pub enabled: bool,
    pub installed: bool,
    pub has_highlights: bool,
    pub trusted: bool,
    pub version: Option<String>,
    pub source: Option<String>,
}

/// `s` padded with spaces on the right to `width` characters.
pub open spec fn padded(s: Seq<char>, width: nat) -> Seq<char> {
    if s.len() >= width {
        s
    } else {
        s + Seq::new((width - s.len()) as nat, |i: int| ' ')
    }
}

/// Pads `s` with spaces on the right to `width` characters, as a
/// left-aligned format field does.
pub fn pad(s: &str, width: usize) -> (r: String)
    ensures
        r@ == padded(s@, width as nat),
{
    let mut out = owned(s);
    let n = crate::strings::str_chars(s).len();
    let mut k: usize = n;
    while k < width
        invariant
            n == s@.len(),
            n <= k <= width || (k == n && n >= width),
            k <= width ==> out@ == s@ + Seq::new((k - n) as nat, |i: int| ' '),
            k > width ==> out@ == s@,
        decreases width - k,
    {
        let ghost before = out@;
        string_push(&mut out, ' ');
        assert(out@ =~= s@ + Seq::new((k + 1 - n) as nat, |i: int| ' '));
        k = k + 1;
    }
    proof {
        if n < width {
            assert(out@ == padded(s@, width as nat));
        } else {
            assert(out@ =~= s@) by {
                if k <= width {
                    assert(Seq::new((k - n) as nat, |i: int| ' ') =~= Seq::<char>::empty());
                }
            }
        }
    }
    out
}

/// The state column: enabled and installed, enabled but missing, only
/// installed, or unknown.
pub open spec fn state_label_spec(enabled: bool, installed: bool) -> Seq<char> {
    if enabled && installed {
        "enabled"@
    } else if enabled {
        "missing"@
    } else if installed {
        "installed"@
    } else {
        "unknown"@
    }
}

/// The state column of a language.
pub fn state_label(enabled: bool, installed: bool) -> (r: &'static str)
    ensures
        r@ == state_label_spec(enabled, installed),
{
    if enabled && installed {
        "enabled"
    } else if enabled {
        "missing"
    } else if installed {
        "installed"
    } else {
        "unknown"
    }
}

/// An optional column: its value, or `-`.
pub open spec fn or_dash(v: Option<String>) -> Seq<char> {
    match v {
        Some(s) => s@,
        None => "-"@,
    }
}

/// The header of the status table; the doctor's table has a trust column.
pub open spec fn status_header_spec(include_trust: bool) -> Seq<char> {
    padded("language"@, 20) + " "@ + padded("status"@, 11) + " "@ + (if include_trust {
        padded("trusted"@, 9) + " "@
    } else {
        Seq::empty()
    }) + padded("syntax"@, 8) + " "@ + padded("version"@, 12) + " "@ + "source"@ + "\n"@
}

/// The row of the status table for one language.
pub open spec fn status_line_spec(s: SyntaxLanguageStatus, include_trust: bool) -> Seq<char> {
    padded(s.language@, 20) + " "@ + padded(state_label_spec(s.enabled, s.installed), 11) + " "@
        + (if include_trust {
        padded(if s.trusted { "yes"@ } else { "no"@ }, 9) + " "@
    } else {
        Seq::empty()
    }) + padded(if s.has_highlights { "yes"@ } else { "plain"@ }, 8) + " "@ + padded(
        or_dash(s.version),
        12,
    ) + " "@ + or_dash(s.source) + "\n"@
}

/// The header of the status table.
pub fn status_header(include_trust: bool) -> (r: String)
    ensures
        r@ == status_header_spec(include_trust),
{
    let mut out = concat(pad("language", 20), " ");
    out = concat(out, pad("status", 11).as_str());
    out = concat(out, " ");
    if include_trust {
        out = concat(out, pad("trusted", 9).as_str());
        out = concat(out, " ");
    }
    out = concat(out, pad("syntax", 8).as_str());
    out = concat(out, " ");
    out = concat(out, pad("version", 12).as_str());
    out = concat(out, " ");
    out = concat(out, "source");
    out = concat(out, "\n");
    proof {
        if !include_trust {
            assert(padded("language"@, 20) + " "@ + padded("status"@, 11) + " "@ + Seq::<char>::empty()
                =~= padded("language"@, 20) + " "@ + padded("status"@, 11) + " "@);
        }
    }
    out
}

fn option_or_dash(v: &Option<String>) -> (r: &str)
    ensures
        r@ == or_dash(*v),
{
    match v {
        Some(s) => s.as_str(),
        None => "-",
    }
}

/// The row of the status table for one language.
pub fn status_line(status: &SyntaxLanguageStatus, include_trust: bool) -> (r: String)
    ensures
        r@ == status_line_spec(*status, include_trust),
{
    let mut out = concat(pad(status.language.as_str(), 20), " ");
    out = concat(out, pad(state_label(status.enabled, status.installed), 11).as_str());
    out = concat(out, " ");
    if include_trust {
        out = concat(out, pad(if status.trusted { "yes" } else { "no" }, 9).as_str());
        out = concat(out, " ");
    }
    out = concat(out, pad(if status.has_highlights { "yes" } else { "plain" }, 8).as_str());
    out = concat(out, " ");
    out = concat(out, pad(option_or_dash(&status.version), 12).as_str());
    out = concat(out, " ");
    out = concat(out, option_or_dash(&status.source));
    out = concat(out, "\n");
    proof {
        if !include_trust {
            let a = padded(status.language@, 20) + " "@ + padded(state_label_spec(status.enabled, status.installed), 11) + " "@;
            assert(a + Seq::<char>::empty() =~= a);
        }
    }
    out
}

/// One line per item: `before`, the item, `after`.
pub open spec fn framed(items: Seq<String>, before: Seq<char>, after: Seq<char>) -> Seq<char>
    decreases items.len(),
{
    if items.len() == 0 {
        Seq::empty()
    } else {
        framed(items.drop_last(), before, after) + before + items.last()@ + after
    }
}

/// Appends one line per item: `before`, the item, `after`.
fn push_framed(out: &mut String, items: &Vec<String>, before: &str, after: &str)
    ensures
        final(out)@ == old(out)@ + framed(items@, before@, after@),
{
    let ghost start = out@;
    let mut k: usize = 0;
    while k < items.len()
        invariant
            k <= items@.len(),
            out@ == start + framed(items@.take(k as int), before@, after@),
        decreases items@.len() - k,
    {
        assert(items@.take(k + 1).drop_last() =~= items@.take(k as int));
        let taken = out.clone();
        let mut next = concat(taken, before);
        next = concat(next, items[k].as_str());
        next = concat(next, after);
        *out = next;
        k = k + 1;
    }
    assert(items@.take(items@.len() as int) =~= items@);
}

/// The rows of the status table, one per language.
pub open spec fn status_lines(statuses: Seq<SyntaxLanguageStatus>, include_trust: bool) -> Seq<char>
    decreases statuses.len(),
{
    if statuses.len() == 0 {
        Seq::empty()
    } else {
        status_lines(statuses.drop_last(), include_trust) + status_line_spec(statuses.last(), include_trust)
    }
}

/// The status table: the header and a row per language.
pub fn statuses_report(statuses: &Vec<SyntaxLanguageStatus>, include_trust: bool) -> (r: String)
    ensures
        r@ == status_header_spec(include_trust) + status_lines(statuses@, include_trust),
{
    let mut out = status_header(include_trust);
    let mut k: usize = 0;
    while k < statuses.len()
        invariant
            k <= statuses@.len(),
            out@ == status_header_spec(include_trust) + status_lines(statuses@.take(k as int), include_trust),
        decreases statuses@.len() - k,
    {
        assert(statuses@.take(k + 1).drop_last() =~= statuses@.take(k as int));
        out = concat(out, status_line(&statuses[k], include_trust).as_str());
        k = k + 1;
    }
    assert(statuses@.take(statuses@.len() as int) =~= statuses@);
    out
}

/// What `dx syntax add` did.
pub struct SyntaxAddResult {
    pub added: Vec<String>,
    pub already_enabled: Vec<String>,
    pub without_highlights: Vec<String>,
}

/// The warning for languages without a highlights query.
pub open spec fn no_highlights_lines(v: Seq<String>) -> Seq<char> {
    framed(v, "warning "@, ": no bundled highlights query; diff will render plain text\n"@)
}

/// The report of `dx syntax add`.
pub open spec fn add_report_spec(r: SyntaxAddResult) -> Seq<char> {
    framed(r.added@, "+ enabled "@, "\n"@) + framed(r.already_enabled@, "= enabled "@, "\n"@)
        + no_highlights_lines(r.without_highlights@)
}

/// The report of `dx syntax add`.
pub fn add_report(result: &SyntaxAddResult) -> (r: String)
    ensures
        r@ == add_report_spec(*result),
{
    let mut out = String::new();
    push_framed(&mut out, &result.added, "+ enabled ", "\n");
    push_framed(&mut out, &result.already_enabled, "= enabled ", "\n");
    push_framed(&mut out, &result.without_highlights, "warning ", ": no bundled highlights query; diff will render plain text\n");
    out
}

/// What `dx syntax update` did.
pub struct SyntaxUpdateResult {
    pub updated: Vec<String>,
    pub bundled: Vec<String>,
    pub not_installed: Vec<String>,
    pub unavailable: Vec<String>,
    pub without_highlights: Vec<String>,
}

/// The report of `dx syntax update`; it says so when there was nothing to
/// update.
pub open spec fn update_report_spec(r: SyntaxUpdateResult) -> Seq<char> {
    (if r.updated@.len() == 0 && r.bundled@.len() == 0 && r.not_installed@.len() == 0
        && r.unavailable@.len() == 0 {
        "no parser caches to update\n"@
    } else {
        Seq::empty()
    }) + framed(r.updated@, "~ updated parser cache "@, "\n"@) + framed(r.bundled@, "= bundled parser "@, "\n"@)
        + framed(r.not_installed@, "= not installed "@, "\n"@) + framed(r.unavailable@, "warning "@, ": language is not known\n"@)
        + no_highlights_lines(r.without_highlights@)
}

/// The report of `dx syntax update`.
pub fn update_report(result: &SyntaxUpdateResult) -> (r: String)
    ensures
        r@ == update_report_spec(*result),
{
    let mut out = String::new();
    if result.updated.len() == 0 && result.bundled.len() == 0 && result.not_installed.len() == 0
        && result.unavailable.len() == 0 {
        out = owned("no parser caches to update\n");
    }
    proof {
        assert(out@ == (if result.updated@.len() == 0 && result.bundled@.len() == 0 && result.not_installed@.len() == 0
            && result.unavailable@.len() == 0 {
            "no parser caches to update\n"@
        } else {
            Seq::<char>::empty()
        }));
    }
    push_framed(&mut out, &result.updated, "~ updated parser cache ", "\n");
    push_framed(&mut out, &result.bundled, "= bundled parser ", "\n");
    push_framed(&mut out, &result.not_installed, "= not installed ", "\n");
    push_framed(&mut out, &result.unavailable, "warning ", ": language is not known\n");
    push_framed(&mut out, &result.without_highlights, "warning ", ": no bundled highlights query; diff will render plain text\n");
    out
}

/// What `dx syntax rm` did.
pub struct SyntaxRemoveResult {
    pub removed: Vec<String>,
    pub missing: Vec<String>,
    pub cache_deleted: Vec<String>,
    pub cache_missing: Vec<String>,
}

/// The report of `dx syntax rm`.
pub open spec fn remove_report_spec(r: SyntaxRemoveResult) -> Seq<char> {
    framed(r.removed@, "- disabled "@, " in config\n"@) + framed(r.missing@, "= not enabled in config "@, "\n"@)
        + framed(r.cache_deleted@, "- deleted parser cache "@, "\n"@) + framed(r.cache_missing@, "= no parser cache "@, "\n"@)
}

/// The report of `dx syntax rm`.
pub fn remove_report(result: &SyntaxRemoveResult) -> (r: String)
    ensures
        r@ == remove_report_spec(*result),
{
    let mut out = String::new();
    push_framed(&mut out, &result.removed, "- disabled ", " in config\n");
    push_framed(&mut out, &result.missing, "= not enabled in config ", "\n");
    push_framed(&mut out, &result.cache_deleted, "- deleted parser cache ", "\n");
    push_framed(&mut out, &result.cache_missing, "= no parser cache ", "\n");
    out
}

/// A problem that `dx syntax doctor` found with a language.
pub struct SyntaxIssue {
    pub language: String,
    pub message: String,
}

/// One warning line per issue.
pub open spec fn issue_lines(issues: Seq<SyntaxIssue>) -> Seq<char>
    decreases issues.len(),
{
    if issues.len() == 0 {
        Seq::empty()
    } else {
        issue_lines(issues.drop_last()) + "warning "@ + issues.last().language@ + ": "@ + issues.last().message@ + "\n"@
    }
}

/// The report of `dx syntax doctor`: the status table with trust, then
/// `ok` or a warning per issue.
pub open spec fn doctor_report_spec(statuses: Seq<SyntaxLanguageStatus>, issues: Seq<SyntaxIssue>) -> Seq<char> {
    status_header_spec(true) + status_lines(statuses, true) + (if issues.len() == 0 {
        "ok\n"@
    } else {
        issue_lines(issues)
    })
}

/// The report of `dx syntax doctor`.
pub fn doctor_report(statuses: &Vec<SyntaxLanguageStatus>, issues: &Vec<SyntaxIssue>) -> (r: String)
    ensures
        r@ == doctor_report_spec(statuses@, issues@),
{
    let mut out = statuses_report(statuses, true);
    if issues.len() == 0 {
        return concat(out, "ok\n");
    }
    let ghost start = out@;
    let mut k: usize = 0;
    while k < issues.len()
        invariant
            k <= issues@.len(),
            out@ == start + issue_lines(issues@.take(k as int)),
        decreases issues@.len() - k,
    {
        assert(issues@.take(k + 1).drop_last() =~= issues@.take(k as int));
        out = concat(out, "warning ");
        out = concat(out, issues[k].language.as_str());
        out = concat(out, ": ");
        out = concat(out, issues[k].message.as_str());
        out = concat(out, "\n");
        k = k + 1;
    }
    assert(issues@.take(issues@.len() as int) =~= issues@);
    out
}

/// The decimal digit for a value below ten.
pub open spec fn digit_char(d: nat) -> char {
    if d == 0 { '0' } else if d == 1 { '1' } else if d == 2 { '2' } else if d == 3 { '3' }
    else if d == 4 { '4' } else if d == 5 { '5' } else if d == 6 { '6' } else if d == 7 { '7' }
    else if d == 8 { '8' } else { '9' }
}

/// `n` written in decimal.
pub open spec fn decimal(n: nat) -> Seq<char>
    decreases n,
{
    if n < 10 {
        seq![digit_char(n)]
    } else {
        decimal(n / 10) + seq![digit_char(n % 10)]
    }
}

fn digit(d: usize) -> (r: char)
    requires
        d < 10,
    ensures
        r == digit_char(d as nat),
{
    if d == 0 { '0' } else if d == 1 { '1' } else if d == 2 { '2' } else if d == 3 { '3' }
    else if d == 4 { '4' } else if d == 5 { '5' } else if d == 6 { '6' } else if d == 7 { '7' }
    else if d == 8 { '8' } else { '9' }
}

/// `n` written in decimal.
pub fn decimal_string(n: usize) -> (r: String)
    ensures
        r@ == decimal(n as nat),
    decreases n,
{
    if n < 10 {
        let mut out = String::new();
        string_push(&mut out, digit(n));
        assert(out@ =~= seq![digit_char(n as nat)]);
        out
    } else {
        let mut out = decimal_string(n / 10);
        string_push(&mut out, digit(n % 10));
        out
    }
}

/// What `dx syntax clean` did.
pub struct SyntaxCleanResult {
    pub parser_artifacts_removed: usize,
    pub artifact_records_removed: usize,
    pub enabled_languages_kept: usize,
}

/// The report of `dx syntax clean`.
pub open spec fn clean_report_spec(r: SyntaxCleanResult) -> Seq<char> {
    "removed "@ + decimal(r.parser_artifacts_removed as nat) + " parser artifacts and "@ + decimal(
        r.artifact_records_removed as nat,
    ) + " checksum records\n"@ + "kept "@ + decimal(r.enabled_languages_kept as nat)
        + " enabled-language config entries\n"@
}

/// The report of `dx syntax clean`.
pub fn clean_report(result: &SyntaxCleanResult) -> (r: String)
    ensures
        r@ == clean_report_spec(*result),
{
    let mut out = owned("removed ");
    out = concat(out, decimal_string(result.parser_artifacts_removed).as_str());
    out = concat(out, " parser artifacts and ");
    out = concat(out, decimal_string(result.artifact_records_removed).as_str());
    out = concat(out, " checksum records\n");
    out = concat(out, "kept ");
    out = concat(out, decimal_string(result.enabled_languages_kept).as_str());
    out = concat(out, " enabled-language config entries\n");
    out
}

/// The report of `dx syntax available`: one language per line.
pub fn available_report(languages: &Vec<String>) -> (r: String)
    ensures
        r@ == framed(languages@, ""@, "\n"@),
{
    let mut out = String::new();
    push_framed(&mut out, languages, "", "\n");
    out
}

/// The report of `dx syntax path`: the parser cache, the language registry,
/// the settings file and the color scheme directory, one per line under a
/// padded name.
pub open spec fn path_report_spec(cache: Seq<char>, registry: Seq<char>, config: Seq<char>, colorscheme: Seq<char>) -> Seq<char> {
    "cache       "@ + cache + "\n"@ + "registry    "@ + registry + "\n"@ + "config      "@ + config + "\n"@
        + "colorscheme "@ + colorscheme + "\n"@
}

/// The report of `dx syntax path`.
pub fn path_report(cache: &str, registry: &str, config: &str, colorscheme: &str) -> (r: String)
    ensures
        r@ == path_report_spec(cache@, registry@, config@, colorscheme@),
{
    let mut out = owned("cache       ");
    out = concat(out, cache);
    out = concat(out, "\n");
    out = concat(out, "registry    ");
    out = concat(out, registry);
    out = concat(out, "\n");
    out = concat(out, "config      ");
    out = concat(out, config);
    out = concat(out, "\n");
    out = concat(out, "colorscheme ");
    out = concat(out, colorscheme);
    out = concat(out, "\n");
    out
}

} // verus!
