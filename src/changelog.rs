use vstd::prelude::*;

use crate::text::{
    all_digits, chars_of, digits_value, first_non_space, is_digit, push_char, split_on,
    string_of, white_space,
};

verus! {

/// A release version MAJOR.MINOR.PATCH, without pre-release or build parts.
#[derive(Debug, Clone, Copy, PartialEq, Eq, Structural)]
pub struct Version {
    pub major: u64,
    pub minor: u64,
    pub patch: u64,
}

/// Precedence of release versions: by major, then minor, then patch number.
pub open spec fn version_less(a: Version, b: Version) -> bool {
    a.major < b.major || (a.major == b.major && (a.minor < b.minor || (a.minor == b.minor
        && a.patch < b.patch)))
}

pub fn less_than(a: &Version, b: &Version) -> (r: bool)
    ensures
        r == version_less(*a, *b),
{
    a.major < b.major || (a.major == b.major && (a.minor < b.minor || (a.minor == b.minor
        && a.patch < b.patch)))
}

pub open spec fn is_version_char(c: char) -> bool {
    is_digit(c) || c == '.'
}

pub open spec fn digits_and_dots(s: Seq<char>) -> bool {
    forall|i: int| 0 <= i < s.len() ==> is_version_char(#[trigger] s[i])
}

/// A number of a version: decimal digits, no leading zero, within u64.
pub open spec fn valid_number(d: Seq<char>) -> bool {
    &&& d.len() > 0
    &&& all_digits(d)
    &&& (d.len() == 1 || d[0] != '0')
    &&& digits_value(d) <= u64::MAX
}

/// Three dot-separated version numbers, read as numbers.
pub open spec fn release_triple(s: Seq<char>) -> Option<(u64, u64, u64)> {
    let f = split_on(s, '.');
    if f.len() == 3 && valid_number(f[0]) && valid_number(f[1]) && valid_number(f[2]) {
        Some((digits_value(f[0]) as u64, digits_value(f[1]) as u64, digits_value(f[2]) as u64))
    } else {
        None
    }
}

/// The release version written in `s`, if `s` is one.
pub open spec fn release_version(s: Seq<char>) -> Option<Version> {
    if digits_and_dots(s) {
        match release_triple(s) {
            Some(t) => Some(Version { major: t.0, minor: t.1, patch: t.2 }),
            None => None,
        }
    } else {
        None
    }
}

/// Relies on `semver::Version::parse`: on text made of ASCII digits and dots it succeeds
/// exactly on three dot-separated numbers without leading zeros that fit in u64 (its
/// `numeric_identifier` and `dot` steps), and what follows the patch number must be empty.
#[verifier::external_body]
fn semver_release(text: &str) -> (r: Option<(u64, u64, u64)>)
    requires
        digits_and_dots(text@),
    ensures
        r == release_triple(text@),
{
    match semver::Version::parse(text) {
        Ok(v) => Some((v.major, v.minor, v.patch)),
        Err(_) => None,
    }
}

impl Version {
    pub fn new(major: u64, minor: u64, patch: u64) -> (r: Version)
        ensures
            r == (Version { major, minor, patch }),
    {
        Version { major, minor, patch }
    }

    /// Reads a release version such as "1.2.3"; anything else gives `None`.
    pub fn parse(text: &str) -> (r: Option<Version>)
        ensures
            r == release_version(text@),
    {
        let chars = chars_of(text);
        let mut i: usize = 0;
        while i < chars.len()
            invariant
                chars@ == text@,
                i <= chars.len(),
                forall|j: int| 0 <= j < i ==> is_version_char(#[trigger] chars@[j]),
            decreases chars.len() - i,
        {
            let c = chars[i];
            if !(('0' <= c && c <= '9') || c == '.') {
                return None;
            }
            i = i + 1;
        }
        match semver_release(text) {
            Some((major, minor, patch)) => Some(Version { major, minor, patch }),
            None => None,
        }
    }
}

/// The part of a changelog about one version: its heading line and the lines up to the next
/// heading, each ended by a newline.
#[derive(Debug, PartialEq, Eq)]
pub struct ChangelogSection {
    pub version: Version,
    pub content: String,
}

pub struct SectionView {
    pub version: Version,
    pub content: Seq<char>,
}

impl View for ChangelogSection {
    type V = SectionView;

    open spec fn view(&self) -> SectionView {
        SectionView { version: self.version, content: self.content@ }
    }
}

// ---------------------------------------------------------------------------------------
// Lines
// ---------------------------------------------------------------------------------------

pub open spec fn without_cr(l: Seq<char>) -> Seq<char> {
    if l.len() > 0 && l.last() == '\r' {
        l.drop_last()
    } else {
        l
    }
}

/// The lines of `s` as `str::lines` gives them: split at each "\n", a "\r" before it dropped,
/// and no empty line after a final "\n".
pub open spec fn lines_of(s: Seq<char>) -> Seq<Seq<char>> {
    let p = split_on(s, '\n');
    let n = p.len() as int;
    let count = if p[n - 1].len() == 0 {
        n - 1
    } else {
        n
    };
    Seq::new(
        count as nat,
        |i: int|
            if i < n - 1 {
                without_cr(p[i])
            } else {
                p[i]
            },
    )
}

/// Splits `content` into lines; see `lines_of`.
pub fn split_lines(content: &str) -> (r: Vec<String>)
    ensures
        r@.map_values(|l: String| l@) == lines_of(content@),
{
    let mut done: Vec<String> = Vec::new();
    let mut current = String::new();
    let mut pending_cr = false;
    let ghost mut seen: Seq<char> = Seq::empty();
    proof {
        reveal_with_fuel(split_on, 1);
    }
    for c in it: content.chars()
        invariant
            it.seq() == content@,
            seen == it.seq().take(it.index()),
            split_on(seen, '\n').len() == done@.len() + 1,
            forall|j: int|
                0 <= j < done@.len() ==> (#[trigger] done@[j])@ == without_cr(
                    split_on(seen, '\n')[j],
                ),
            split_on(seen, '\n').last() == if pending_cr {
                current@.push('\r')
            } else {
                current@
            },
            !pending_cr ==> current@.len() == 0 || current@.last() != '\r',
    {
        let ghost before = seen;
        proof {
            seen = seen.push(c);
            assert(seen.drop_last() =~= before);
            assert(it.seq().take(it.index() + 1) =~= seen);
        }
        if c == '\n' {
            if pending_cr {
                assert(current@.push('\r').drop_last() =~= current@);
            }
            let line = current;
            done.push(line);
            current = String::new();
            pending_cr = false;
        } else {
            if pending_cr {
                push_char(&mut current, '\r');
            }
            if c == '\r' {
                pending_cr = true;
            } else {
                push_char(&mut current, c);
                pending_cr = false;
            }
        }
    }
    if pending_cr {
        push_char(&mut current, '\r');
    }
    assert(seen =~= content@);
    let ghost finished = done@;
    if !current.as_str().is_empty() {
        done.push(current);
    }
    assert(done@.map_values(|l: String| l@) =~= lines_of(content@));
    done
}

// ---------------------------------------------------------------------------------------
// Version headings
// ---------------------------------------------------------------------------------------

/// The first index at or after `j` that does not hold a digit or a dot (or the length).
pub open spec fn version_run_end(s: Seq<char>, j: int) -> int
    decreases s.len() - j,
{
    if j < 0 || j >= s.len() {
        s.len() as int
    } else if is_version_char(s[j]) {
        version_run_end(s, j + 1)
    } else {
        j
    }
}

/// The version text of a heading `## [x.y.z]` that starts at index `i` of the line `s`:
/// "##", white space, "[", digits and dots, "]".
pub open spec fn heading_at(s: Seq<char>, i: int) -> Option<Seq<char>> {
    if 0 <= i && i + 1 < s.len() && s[i] == '#' && s[i + 1] == '#' {
        let a = first_non_space(s, i + 2);
        if a > i + 2 && a < s.len() && s[a] == '[' {
            let b = version_run_end(s, a + 1);
            if b > a + 1 && b < s.len() && s[b] == ']' {
                Some(s.subrange(a + 1, b))
            } else {
                None
            }
        } else {
            None
        }
    } else {
        None
    }
}

/// The version text of the leftmost heading at or after index `i` of the line `s`.
pub open spec fn heading_from(s: Seq<char>, i: int) -> Option<Seq<char>>
    decreases s.len() - i,
{
    if i < 0 || i >= s.len() {
        None
    } else {
        match heading_at(s, i) {
            Some(v) => Some(v),
            None => heading_from(s, i + 1),
        }
    }
}

/// The version text of a line that holds a version heading, anywhere in it.
pub open spec fn heading_version(line: Seq<char>) -> Option<Seq<char>> {
    heading_from(line, 0)
}

fn heading_at_exec(s: &Vec<char>, i: usize) -> (r: Option<String>)
    requires
        i < s.len(),
    ensures
        match heading_at(s@, i as int) {
            Some(v) => r is Some && r->Some_0@ == v,
            None => r is None,
        },
{
    let n = s.len();
    if !(i + 1 < n && s[i] == '#' && s[i + 1] == '#') {
        return None;
    }
    let mut a = i + 2;
    while a < n && white_space(s[a])
        invariant
            n == s.len(),
            i + 2 <= a <= n,
            first_non_space(s@, i + 2) == first_non_space(s@, a as int),
        decreases n - a,
    {
        a = a + 1;
    }
    if !(a > i + 2 && a < n && s[a] == '[') {
        return None;
    }
    let mut b = a + 1;
    while b < n && (('0' <= s[b] && s[b] <= '9') || s[b] == '.')
        invariant
            n == s.len(),
            a + 1 <= b <= n,
            version_run_end(s@, a + 1) == version_run_end(s@, b as int),
        decreases n - b,
    {
        b = b + 1;
    }
    if b > a + 1 && b < n && s[b] == ']' {
        Some(string_of(s, a + 1, b))
    } else {
        None
    }
}

/// Finds the version text of a heading in `line`; see `heading_version`.
pub fn find_heading(line: &str) -> (r: Option<String>)
    ensures
        match heading_version(line@) {
            Some(v) => r is Some && r->Some_0@ == v,
            None => r is None,
        },
{
    let s = chars_of(line);
    let mut i: usize = 0;
    while i < s.len()
        invariant
            s@ == line@,
            i <= s.len(),
            heading_version(line@) == heading_from(s@, i as int),
        decreases s.len() - i,
    {
        let h = heading_at_exec(&s, i);
        if h.is_some() {
            return h;
        }
        i = i + 1;
    }
    None
}

// ---------------------------------------------------------------------------------------
// Sections
// ---------------------------------------------------------------------------------------

/// A section as found, before its version is read: the heading's version text and the
/// section's lines.
pub struct RawSection {
    pub label: Seq<char>,
    pub text: Seq<char>,
}

pub open spec fn line_text(l: Seq<char>) -> Seq<char> {
    l.push('\n')
}

/// The finished sections and the open one after the lines `lines`. Lines before the first
/// heading belong to no section.
pub open spec fn scan(lines: Seq<Seq<char>>) -> (Seq<RawSection>, Option<RawSection>)
    decreases lines.len(),
{
    if lines.len() == 0 {
        (Seq::empty(), None)
    } else {
        let (done, open) = scan(lines.drop_last());
        let l = lines.last();
        match heading_version(l) {
            Some(v) => (
                match open {
                    Some(o) => done.push(o),
                    None => done,
                },
                Some(RawSection { label: v, text: line_text(l) }),
            ),
            None => (
                done,
                match open {
                    Some(o) => Some(RawSection { label: o.label, text: o.text + line_text(l) }),
                    None => None,
                },
            ),
        }
    }
}

pub open spec fn raw_sections(lines: Seq<Seq<char>>) -> Seq<RawSection> {
    let (done, open) = scan(lines);
    match open {
        Some(o) => done.push(o),
        None => done,
    }
}

/// The sections whose version reads as a release version in `from < version <= until`.
pub open spec fn in_range(raws: Seq<RawSection>, from: Version, until: Version) -> Seq<SectionView>
    decreases raws.len(),
{
    if raws.len() == 0 {
        Seq::empty()
    } else {
        let rest = in_range(raws.drop_last(), from, until);
        let r = raws.last();
        match release_version(r.label) {
            Some(v) => if version_less(from, v) && !version_less(until, v) {
                rest.push(SectionView { version: v, content: r.text })
            } else {
                rest
            },
            None => rest,
        }
    }
}

/// The sections of `content` for the versions after `from` up to `until`, in the order of the
/// text; nothing when `from` is not below `until`.
pub open spec fn changelog_sections(content: Seq<char>, from: Version, until: Version) -> Seq<
    SectionView,
> {
    if version_less(from, until) {
        in_range(raw_sections(lines_of(content)), from, until)
    } else {
        Seq::empty()
    }
}

/// A range whose lower end is not below its upper end holds no section, whatever the text.
pub proof fn lemma_empty_range(content: Seq<char>, from: Version, until: Version)
    requires
        !version_less(from, until),
    ensures
        changelog_sections(content, from, until) == Seq::<SectionView>::empty(),
{
}

pub open spec fn section_views(s: Seq<ChangelogSection>) -> Seq<SectionView> {
    s.map_values(|c: ChangelogSection| c@)
}

/// Adds the section with heading text `label` and lines `text` to `sections` when its
/// version reads and lies in range.
fn close_section(
    from: &Version,
    until: &Version,
    sections: &mut Vec<ChangelogSection>,
    label: &String,
    text: String,
)
    ensures
        section_views(final(sections)@) == section_views(old(sections)@) + in_range(
            seq![RawSection { label: label@, text: text@ }],
            *from,
            *until,
        ),
{
    let ghost one = seq![RawSection { label: label@, text: text@ }];
    assert(one.drop_last() =~= Seq::<RawSection>::empty());
    assert(one.last() == RawSection { label: label@, text: text@ });
    assert(in_range(one.drop_last(), *from, *until) =~= Seq::<SectionView>::empty());
    let ghost before = section_views(sections@);
    assert(before + Seq::<SectionView>::empty() =~= before);
    match Version::parse(label.as_str()) {
        Some(version) => {
            if less_than(from, &version) && !less_than(until, &version) {
                let ghost tv = text@;
                sections.push(ChangelogSection { version, content: text });
                assert(section_views(sections@) =~= before.push(
                    SectionView { version, content: tv },
                ));
                assert(before.push(SectionView { version, content: tv }) =~= before + seq![
                    SectionView { version, content: tv },
                ]);
            }
        },
        None => {},
    }
    assert(section_views(sections@) =~= before + in_range(one, *from, *until));
}

proof fn lemma_in_range_push(done: Seq<RawSection>, o: RawSection, from: Version, until: Version)
    ensures
        in_range(done.push(o), from, until) == in_range(done, from, until) + in_range(
            seq![o],
            from,
            until,
        ),
{
    assert(done.push(o).drop_last() =~= done);
    assert(seq![o].drop_last() =~= Seq::<RawSection>::empty());
    assert(in_range(Seq::<RawSection>::empty(), from, until) =~= Seq::<SectionView>::empty());
    let a = in_range(done, from, until);
    assert(a + Seq::<SectionView>::empty() =~= a);
    match release_version(o.label) {
        Some(v) => {
            let sv = SectionView { version: v, content: o.text };
            assert(a.push(sv) =~= a + seq![sv]);
        },
        None => {},
    }
}

/// Splits changelog text into version sections and keeps those after `from` up to and
/// including `until`, in the order of the text. A heading is a line holding "## [x.y.z]";
/// a section whose version does not read is dropped; text before the first heading is not
/// part of any section.
pub fn parse_changelog(content: &str, from: &Version, until: &Version) -> (r: Vec<
    ChangelogSection,
>)
    ensures
        section_views(r@) == changelog_sections(content@, *from, *until),
{
    if !less_than(from, until) {
        let r: Vec<ChangelogSection> = Vec::new();
        assert(section_views(r@) =~= Seq::<SectionView>::empty());
        return r;
    }
    let lines = split_lines(content);
    let ghost all = lines@.map_values(|l: String| l@);
    let mut sections: Vec<ChangelogSection> = Vec::new();
    let mut open: Option<(String, String)> = None;
    assert(all.take(0) =~= Seq::<Seq<char>>::empty());
    assert(section_views(sections@) =~= Seq::<SectionView>::empty());
    for i in 0..lines.len()
        invariant
            all == lines@.map_values(|l: String| l@),
            all == lines_of(content@),
            section_views(sections@) == in_range(scan(all.take(i as int)).0, *from, *until),
            match scan(all.take(i as int)).1 {
                Some(o) => open is Some && open->Some_0.0@ == o.label && open->Some_0.1@
                    == o.text,
                None => open is None,
            },
    {
        let line = &lines[i];
        let ghost prefix = all.take(i as int);
        assert(all.take(i + 1).drop_last() =~= prefix);
        assert(all.take(i + 1).last() == line@);
        let ghost done = scan(prefix).0;
        match find_heading(line.as_str()) {
            Some(label) => {
                match open {
                    Some((l, t)) => {
                        proof {
                            lemma_in_range_push(done, scan(prefix).1->Some_0, *from, *until);
                        }
                        close_section(from, until, &mut sections, &l, t);
                    },
                    None => {},
                }
                let mut text = line.clone();
                push_char(&mut text, '\n');
                open = Some((label, text));
            },
            None => {
                match open {
                    Some((l, t)) => {
                        let mut t = t;
                        t.append(line.as_str());
                        push_char(&mut t, '\n');
                        assert(t@ =~= scan(prefix).1->Some_0.text + line_text(line@));
                        open = Some((l, t));
                    },
                    None => {
                        open = None;
                    },
                }
            },
        }
    }
    assert(all.take(lines.len() as int) =~= all);
    let ghost fin = scan(all);
    match open {
        Some((l, t)) => {
            proof {
                lemma_in_range_push(fin.0, fin.1->Some_0, *from, *until);
            }
            close_section(from, until, &mut sections, &l, t);
        },
        None => {},
    }
    sections
}

} // verus!
