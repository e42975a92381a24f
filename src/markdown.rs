use vstd::prelude::*;
use crate::engine::Issue;
use crate::report::Report;

verus! {

/// What `str::to_lowercase` makes of a text.
pub uninterp spec fn lower_of(s: Seq<char>) -> Seq<char>;

/// Relies on `str::to_lowercase`: its result depends on the characters alone.
#[verifier::external_body]
fn lowercase(s: &str) -> (r: String)
    ensures
        r@ == lower_of(s@),
{
    s.to_lowercase()
}

pub open spec fn is_ascii_alnum(c: char) -> bool {
    let u = c as u32;
    (48 <= u <= 57) || (65 <= u <= 90) || (97 <= u <= 122)
}

/// An anchor made from lowered text: spaces become dashes, and every other
/// character that is neither an ASCII letter or digit nor a dash is dropped.
pub open spec fn slug_of(s: Seq<char>) -> Seq<char>
    decreases s.len(),
{
    if s.len() == 0 {
        Seq::empty()
    } else {
        let prev = slug_of(s.drop_last());
        let c = s.last();
        if c == ' ' || c == '-' {
            prev.push('-')
        } else if is_ascii_alnum(c) {
            prev.push(c)
        } else {
            prev
        }
    }
}

/// The decimal digits of `d < 10`.
pub open spec fn digit_text(d: nat) -> Seq<char> {
    if d == 0 { "0"@ }
    else if d == 1 { "1"@ }
    else if d == 2 { "2"@ }
    else if d == 3 { "3"@ }
    else if d == 4 { "4"@ }
    else if d == 5 { "5"@ }
    else if d == 6 { "6"@ }
    else if d == 7 { "7"@ }
    else if d == 8 { "8"@ }
    else { "9"@ }
}

/// `n` written in decimal.
pub open spec fn decimal_text(n: nat) -> Seq<char>
    decreases n,
{
    if n < 10 {
        digit_text(n)
    } else {
        decimal_text(n / 10) + digit_text(n % 10)
    }
}

fn digit(d: usize) -> (r: &'static str)
    requires
        d < 10,
    ensures
        r@ == digit_text(d as nat),
{
    if d == 0 { "0" }
    else if d == 1 { "1" }
    else if d == 2 { "2" }
    else if d == 3 { "3" }
    else if d == 4 { "4" }
    else if d == 5 { "5" }
    else if d == 6 { "6" }
    else if d == 7 { "7" }
    else if d == 8 { "8" }
    else { "9" }
}

/// `n` written in decimal.
pub fn decimal(n: usize) -> (r: String)
    ensures
        r@ == decimal_text(n as nat),
    decreases n,
{
    if n < 10 {
        digit(n).to_owned()
    } else {
        let mut r = decimal(n / 10);
        r.append(digit(n % 10));
        r
    }
}

/// The anchor of a title that is already in lower case.
pub fn slug_from_lowered(lowered: &str) -> (r: String)
    ensures
        r@ == slug_of(lowered@),
{
    let n = lowered.unicode_len();
    let mut r = String::new();
    let mut i: usize = 0;
    while i < n
        invariant
            n == lowered@.len(),
            i <= n,
            r@ == slug_of(lowered@.subrange(0, i as int)),
        decreases n - i,
    {
        let c = lowered.get_char(i);
        proof {
            assert(lowered@.subrange(0, i + 1).drop_last() =~= lowered@.subrange(0, i as int));
        }
        let u = c as u32;
        if c == ' ' || c == '-' {
            r.append("-");
            proof {
                reveal_strlit("-");
                assert(r@ =~= slug_of(lowered@.subrange(0, i + 1)));
            }
        } else if (48 <= u && u <= 57) || (65 <= u && u <= 90) || (97 <= u && u <= 122) {
            r.append(lowered.substring_char(i, i + 1));
            proof {
                assert(r@ =~= slug_of(lowered@.subrange(0, i + 1)));
            }
        } else {
            proof {
                assert(r@ =~= slug_of(lowered@.subrange(0, i + 1)));
            }
        }
        i += 1;
    }
    proof {
        assert(lowered@.subrange(0, n as int) =~= lowered@);
    }
    r
}

/// The anchor of an issue title in the report.
pub fn title_slug(title: &str) -> (r: String)
    ensures
        r@ == slug_of(lower_of(title@)),
{
    let lowered = lowercase(title);
    slug_from_lowered(lowered.as_str())
}

/// The contents line of the issue numbered `number` under `prefix`.
pub open spec fn toc_line(prefix: Seq<char>, number: nat, title: Seq<char>) -> Seq<char> {
    "  - ["@ + prefix + "-"@ + decimal_text(number) + ": "@ + title + "](#"@ + prefix + "-"@
        + decimal_text(number) + "-"@ + slug_of(lower_of(title)) + ")\n"@
}

/// The contents lines of `issues`, numbered from 1.
pub open spec fn toc_lines(prefix: Seq<char>, issues: Seq<Issue>) -> Seq<char>
    decreases issues.len(),
{
    if issues.len() == 0 {
        Seq::empty()
    } else {
        toc_lines(prefix, issues.drop_last()) + toc_line(prefix, issues.len() as nat, issues.last().title@)
    }
}

/// The contents of one severity: nothing when it has no issues.
pub open spec fn toc_section(heading: Seq<char>, prefix: Seq<char>, issues: Seq<Issue>) -> Seq<char> {
    if issues.len() == 0 {
        Seq::empty()
    } else {
        heading + toc_lines(prefix, issues)
    }
}

pub open spec fn toc_head() -> Seq<char> {
    "# Table of Contents\n\n"@ + "- [Summary](#summary)\n"@ + "  - [Files Summary](#files-summary)\n"@
        + "  - [Files Details](#files-details)\n"@ + "  - [Issue Summary](#issue-summary)\n"@
}

/// The whole table of contents of `r`.
pub open spec fn toc_text(r: Report) -> Seq<char> {
    toc_head()
        + toc_section("- [Critical Issues](#critical-issues)\n"@, "C"@, r.criticals@)
        + toc_section("- [High Issues](#high-issues)\n"@, "H"@, r.highs@)
        + toc_section("- [Medium Issues](#medium-issues)\n"@, "M"@, r.mediums@)
        + toc_section("- [Low Issues](#low-issues)\n"@, "L"@, r.lows@)
        + toc_section("- [NC Issues](#nc-issues)\n"@, "NC"@, r.ncs@) + "\n\n"@
}

pub open spec fn disclaimer_text() -> Seq<char> {
    "# Aderyn Analysis Report\n\n"@
        + "This report was generated by [Aderyn](https://github.com/Cyfrin/aderyn), a static analysis tool built by [Cyfrin](https://cyfrin.io), a blockchain security company. This report is not a substitute for manual audit or security review. It should not be relied upon for any purpose other than to assist in the identification of potential security vulnerabilities.\n"@
}

/// Appends the contents of one severity to `out`.
fn append_section(out: &mut String, heading: &str, prefix: &str, issues: &Vec<Issue>)
    ensures
        final(out)@ == old(out)@ + toc_section(heading@, prefix@, issues@),
{
    if issues.len() == 0 {
        proof {
            assert(old(out)@ + toc_section(heading@, prefix@, issues@) =~= old(out)@);
        }
        return;
    }
    let ghost start = out@;
    out.append(heading);
    let mut i: usize = 0;
    while i < issues.len()
        invariant
            i <= issues@.len() <= usize::MAX,
            out@ == start + heading@ + toc_lines(prefix@, issues@.subrange(0, i as int)),
        decreases issues@.len() - i,
    {
        let ghost before = out@;
        let number = decimal(i + 1);
        let slug = title_slug(issues[i].title.as_str());
        out.append("  - [");
        out.append(prefix);
        out.append("-");
        out.append(number.as_str());
        out.append(": ");
        out.append(issues[i].title.as_str());
        out.append("](#");
        out.append(prefix);
        out.append("-");
        out.append(number.as_str());
        out.append("-");
        out.append(slug.as_str());
        out.append(")\n");
        proof {
            let s = issues@.subrange(0, i + 1);
            assert(s.drop_last() =~= issues@.subrange(0, i as int));
            assert(out@ =~= before + toc_line(prefix@, (i + 1) as nat, issues@[i as int].title@));
            assert(out@ =~= start + heading@ + toc_lines(prefix@, s));
        }
        i += 1;
    }
    proof {
        assert(issues@.subrange(0, issues@.len() as int) =~= issues@);
        assert(out@ =~= start + toc_section(heading@, prefix@, issues@));
    }
}

/// Renders the parts of a Markdown report that depend on the report alone.
pub struct MarkdownReportPrinter;

impl MarkdownReportPrinter {
    /// The report's title and disclaimer.
    pub fn print_title_and_disclaimer(&self) -> (r: String)
        ensures
            r@ == disclaimer_text(),
    {
        let mut r = "# Aderyn Analysis Report\n\n".to_owned();
        r.append("This report was generated by [Aderyn](https://github.com/Cyfrin/aderyn), a static analysis tool built by [Cyfrin](https://cyfrin.io), a blockchain security company. This report is not a substitute for manual audit or security review. It should not be relied upon for any purpose other than to assist in the identification of potential security vulnerabilities.\n");
        r
    }

    /// The table of contents: the summary sections, then for each severity
    /// that has issues a heading and one numbered link per issue.
    pub fn print_table_of_contents(&self, report: &Report) -> (r: String)
        ensures
            r@ == toc_text(*report),
    {
        let mut r = "# Table of Contents\n\n".to_owned();
        r.append("- [Summary](#summary)\n");
        r.append("  - [Files Summary](#files-summary)\n");
        r.append("  - [Files Details](#files-details)\n");
        r.append("  - [Issue Summary](#issue-summary)\n");
        append_section(&mut r, "- [Critical Issues](#critical-issues)\n", "C", &report.criticals);
        append_section(&mut r, "- [High Issues](#high-issues)\n", "H", &report.highs);
        append_section(&mut r, "- [Medium Issues](#medium-issues)\n", "M", &report.mediums);
        append_section(&mut r, "- [Low Issues](#low-issues)\n", "L", &report.lows);
        append_section(&mut r, "- [NC Issues](#nc-issues)\n", "NC", &report.ncs);
        r.append("\n\n");
        proof {
            assert(r@ =~= toc_text(*report));
        }
        r
    }
}

} // verus!
